//! Where a key goes. The shell's modal surfaces stack in a fixed order and
//! the topmost one open takes the key; below them the composer's own menus
//! and the prompt queue get their say, and whatever is left is classified
//! as an editing action. Esc and Ctrl+C have their own ladders.
use vstd::prelude::*;
use crate::keys::{KeyCode, KeyEvent, ALT, CONTROL};
use crate::history::{Recall, RecallView, cleared_into_history, recall_ok, recalled_prev};

verus! {

/// What the shell has open when a key arrives.
pub struct KeyFacts {
    /// A dynamic plugin waits for an approval.
    pub approval_pending: bool,
    pub elicitation: bool,
    pub permission_ask: bool,
    pub view_overlay: bool,
    pub select_overlay: bool,
    pub slider_overlay: bool,
    pub picker: bool,
    pub plugin_tree: bool,
    /// The agent strip has a highlight.
    pub agent_selection: bool,
    /// A subagent's transcript is on screen.
    pub viewing_subagent: bool,
    pub vim_active: bool,
    pub file_menu: bool,
    pub queue_selection: Option<usize>,
    pub queue_len: usize,
    pub queue_editing: bool,
    pub input_empty: bool,
    /// A sent prompt is recalled into the composer.
    pub history_active: bool,
    pub has_subagents: bool,
    /// The `/` menu is open, with this many entries and this highlight.
    pub slash_open: bool,
    pub slash_len: usize,
    pub slash_sel: usize,
    /// Esc dismissed the `/` menu for the current draft.
    pub slash_dismissed: bool,
}

/// An answer to a dynamic plugin's approval request.
#[derive(Clone, Copy, Debug, PartialEq, Eq, Structural)]
pub enum ApprovalDecision {
    AllowVersion,
    AllowFuture,
    Reject,
}

impl ApprovalDecision {
    /// The decision as the host names it.
    pub fn wire_name(self) -> (r: &'static str)
        ensures
            self == ApprovalDecision::AllowVersion ==> r@ == "allow-version"@,
            self == ApprovalDecision::AllowFuture ==> r@ == "allow-future"@,
            self == ApprovalDecision::Reject ==> r@ == "reject"@,
    {
        match self {
            ApprovalDecision::AllowVersion => "allow-version",
            ApprovalDecision::AllowFuture => "allow-future",
            ApprovalDecision::Reject => "reject",
        }
    }
}

/// A key on the agent strip.
#[derive(Clone, Copy, Debug, PartialEq, Eq, Structural)]
pub enum StripKey {
    Previous,
    Next,
    Confirm,
    Cancel,
    Ignore,
}

/// A navigation key for the `@file` browser.
#[derive(Clone, Copy, Debug, PartialEq, Eq, Structural)]
pub enum FileNav {
    ToggleHidden,
    Up,
    Down,
    Home,
    End,
    PageUp,
    PageDown,
    Left,
}

/// Who handles a key.
#[derive(Clone, Copy, Debug, PartialEq, Eq, Structural)]
pub enum KeyRoute {
    /// Alt+1/2/3 answers the oldest pending plugin approval.
    Approval(ApprovalDecision),
    Elicitation,
    PermissionAsk,
    ViewOverlay,
    SelectOverlay,
    SliderOverlay,
    Picker,
    PluginTree,
    AgentStrip(StripKey),
    /// `q` leaves the subagent transcript (as Esc does).
    LeaveSubagent,
    BeginAgentNavigation,
    /// Only the view actions apply while a subagent is on screen.
    SubagentView,
    /// Vim gets the key first; when it declines, route again.
    OfferVim,
    FileMenu(FileNav),
    FileMenuDrill,
    FileMenuSettle,
    FileMenuDismiss,
    /// The queue emptied under the selection: drop it.
    DropQueueSelection,
    QueueSelect(usize),
    EditQueued(usize),
    CloseQueueSelection,
    /// Ctrl+D while editing a queued prompt asks to delete it.
    ConfirmQueueDelete,
    SlashSelect(usize),
    HistoryPrevFromDraft,
    HistoryNext,
    /// Classify the key as an editing action.
    Classify,
    /// The key does nothing.
    Ignore,
}

pub open spec fn plain(key: KeyEvent) -> bool {
    key.modifiers == 0
}

pub open spec fn approval_of(key: KeyEvent) -> Option<ApprovalDecision> {
    match key.code {
        KeyCode::Char(c) => if c == '1' {
            Some(ApprovalDecision::AllowVersion)
        } else if c == '2' {
            Some(ApprovalDecision::AllowFuture)
        } else if c == '3' {
            Some(ApprovalDecision::Reject)
        } else {
            None
        },
        _ => None,
    }
}

pub open spec fn strip_key(key: KeyEvent) -> StripKey {
    if !plain(key) {
        StripKey::Ignore
    } else {
        match key.code {
            KeyCode::Left => StripKey::Previous,
            KeyCode::Right => StripKey::Next,
            KeyCode::Enter => StripKey::Confirm,
            KeyCode::Esc => StripKey::Cancel,
            _ => StripKey::Ignore,
        }
    }
}

/// The `@file` browser's keys; `None` for a key it lets through.
pub open spec fn file_menu_route(key: KeyEvent) -> Option<KeyRoute> {
    if key.modifiers == CONTROL && key.code == KeyCode::Char('h') {
        Some(KeyRoute::FileMenu(FileNav::ToggleHidden))
    } else if !plain(key) {
        None
    } else {
        match key.code {
            KeyCode::Up => Some(KeyRoute::FileMenu(FileNav::Up)),
            KeyCode::Down => Some(KeyRoute::FileMenu(FileNav::Down)),
            KeyCode::Home => Some(KeyRoute::FileMenu(FileNav::Home)),
            KeyCode::End => Some(KeyRoute::FileMenu(FileNav::End)),
            KeyCode::PageUp => Some(KeyRoute::FileMenu(FileNav::PageUp)),
            KeyCode::PageDown => Some(KeyRoute::FileMenu(FileNav::PageDown)),
            KeyCode::Left => Some(KeyRoute::FileMenu(FileNav::Left)),
            KeyCode::Right | KeyCode::Tab => Some(KeyRoute::FileMenuDrill),
            KeyCode::Enter => Some(KeyRoute::FileMenuSettle),
            KeyCode::Esc => Some(KeyRoute::FileMenuDismiss),
            _ => None,
        }
    }
}

/// The queue selector's keys: the arrows wrap over the queue, Enter edits
/// the selected prompt, Esc closes the selector.
pub open spec fn queue_selection_route(selected: usize, n: usize, key: KeyEvent) -> KeyRoute {
    if n == 0 {
        KeyRoute::DropQueueSelection
    } else if !plain(key) {
        KeyRoute::Ignore
    } else {
        match key.code {
            KeyCode::Up => KeyRoute::QueueSelect(if selected == 0 { (n - 1) as usize } else { (selected - 1) as usize }),
            KeyCode::Down => KeyRoute::QueueSelect(((selected + 1) % (n as int)) as usize),
            KeyCode::Enter => KeyRoute::EditQueued(if selected < n { selected } else { (n - 1) as usize }),
            KeyCode::Esc => KeyRoute::CloseQueueSelection,
            _ => KeyRoute::Ignore,
        }
    }
}

/// Below the file browser and the queue selector: the delete chord of a
/// queue edit, entering the agent strip, the `/` menu's arrows, history
/// recall on a dismissed menu, else an editing action.
pub open spec fn composer_route(f: KeyFacts, key: KeyEvent) -> KeyRoute {
    if key.code == KeyCode::Char('d') && key.modifiers == CONTROL && f.queue_editing {
        KeyRoute::ConfirmQueueDelete
    } else if key.code == KeyCode::Down && plain(key) && !f.viewing_subagent && f.input_empty && !f.history_active
        && f.has_subagents {
        KeyRoute::BeginAgentNavigation
    } else if plain(key) && f.slash_open && f.slash_len > 0 && (key.code == KeyCode::Up || key.code
        == KeyCode::Down) {
        KeyRoute::SlashSelect(
            if key.code == KeyCode::Up {
                if f.slash_sel == 0 { (f.slash_len - 1) as usize } else { (f.slash_sel - 1) as usize }
            } else {
                ((f.slash_sel + 1) % (f.slash_len as int)) as usize
            },
        )
    } else if plain(key) && f.slash_dismissed && !f.queue_editing && key.code == KeyCode::Up {
        KeyRoute::HistoryPrevFromDraft
    } else if plain(key) && f.slash_dismissed && !f.queue_editing && key.code == KeyCode::Down {
        KeyRoute::HistoryNext
    } else {
        KeyRoute::Classify
    }
}

/// Who handles `key`; `vim_declined` says vim was offered the key and let
/// it through.
pub open spec fn key_route_of(f: KeyFacts, key: KeyEvent, vim_declined: bool) -> KeyRoute {
    if key.modifiers == ALT && f.approval_pending && approval_of(key) is Some {
        KeyRoute::Approval(approval_of(key)->0)
    } else if f.elicitation {
        KeyRoute::Elicitation
    } else if f.permission_ask {
        KeyRoute::PermissionAsk
    } else if f.view_overlay {
        KeyRoute::ViewOverlay
    } else if f.select_overlay {
        KeyRoute::SelectOverlay
    } else if f.slider_overlay {
        KeyRoute::SliderOverlay
    } else if f.picker {
        KeyRoute::Picker
    } else if f.plugin_tree {
        KeyRoute::PluginTree
    } else if f.agent_selection {
        KeyRoute::AgentStrip(strip_key(key))
    } else if f.viewing_subagent {
        if key.code == KeyCode::Char('q') && plain(key) {
            KeyRoute::LeaveSubagent
        } else if key.code == KeyCode::Down && plain(key) {
            KeyRoute::BeginAgentNavigation
        } else {
            KeyRoute::SubagentView
        }
    } else if f.vim_active && !f.queue_editing && !f.slash_open && !vim_declined {
        KeyRoute::OfferVim
    } else if f.file_menu && file_menu_route(key) is Some {
        file_menu_route(key)->0
    } else if f.queue_selection is Some {
        queue_selection_route(f.queue_selection->0, f.queue_len, key)
    } else {
        composer_route(f, key)
    }
}

fn approval_key(key: KeyEvent) -> (r: Option<ApprovalDecision>)
    ensures
        r == approval_of(key),
{
    match key.code {
        KeyCode::Char(c) => if c == '1' {
            Some(ApprovalDecision::AllowVersion)
        } else if c == '2' {
            Some(ApprovalDecision::AllowFuture)
        } else if c == '3' {
            Some(ApprovalDecision::Reject)
        } else {
            None
        },
        _ => None,
    }
}

fn file_menu_key(key: KeyEvent) -> (r: Option<KeyRoute>)
    ensures
        r == file_menu_route(key),
{
    if key.modifiers == CONTROL && key.code == KeyCode::Char('h') {
        return Some(KeyRoute::FileMenu(FileNav::ToggleHidden));
    }
    if key.modifiers != 0 {
        return None;
    }
    match key.code {
        KeyCode::Up => Some(KeyRoute::FileMenu(FileNav::Up)),
        KeyCode::Down => Some(KeyRoute::FileMenu(FileNav::Down)),
        KeyCode::Home => Some(KeyRoute::FileMenu(FileNav::Home)),
        KeyCode::End => Some(KeyRoute::FileMenu(FileNav::End)),
        KeyCode::PageUp => Some(KeyRoute::FileMenu(FileNav::PageUp)),
        KeyCode::PageDown => Some(KeyRoute::FileMenu(FileNav::PageDown)),
        KeyCode::Left => Some(KeyRoute::FileMenu(FileNav::Left)),
        KeyCode::Right | KeyCode::Tab => Some(KeyRoute::FileMenuDrill),
        KeyCode::Enter => Some(KeyRoute::FileMenuSettle),
        KeyCode::Esc => Some(KeyRoute::FileMenuDismiss),
        _ => None,
    }
}

/// `(s + 1) % n`, without overflow.
fn wrap_next(s: usize, n: usize) -> (r: usize)
    requires
        n > 0,
    ensures
        r as int == (s + 1) % (n as int),
{
    if s < n - 1 {
        proof {
            vstd::arithmetic::div_mod::lemma_small_mod((s + 1) as nat, n as nat);
        }
        s + 1
    } else if s == n - 1 {
        proof {
            vstd::arithmetic::div_mod::lemma_mod_self_0(n as int);
        }
        0
    } else {
        let m = s % n;
        proof {
            vstd::arithmetic::div_mod::lemma_mod_bound(s as int, n as int);
            vstd::arithmetic::div_mod::lemma_add_mod_noop(s as int, 1, n as int);
            if n > 1 {
                vstd::arithmetic::div_mod::lemma_small_mod(1nat, n as nat);
            } else {
                vstd::arithmetic::div_mod::lemma_mod_self_0(1);
                vstd::arithmetic::div_mod::lemma_mod_bound(s as int, 1);
            }
        }
        if m + 1 < n {
            proof {
                vstd::arithmetic::div_mod::lemma_small_mod((m + 1) as nat, n as nat);
            }
            m + 1
        } else {
            proof {
                vstd::arithmetic::div_mod::lemma_mod_self_0(n as int);
            }
            0
        }
    }
}

pub fn key_route(f: &KeyFacts, key: KeyEvent, vim_declined: bool) -> (r: KeyRoute)
    ensures
        r == key_route_of(*f, key, vim_declined),
{
    if key.modifiers == ALT && f.approval_pending {
        if let Some(d) = approval_key(key) {
            return KeyRoute::Approval(d);
        }
    }
    if f.elicitation {
        return KeyRoute::Elicitation;
    }
    if f.permission_ask {
        return KeyRoute::PermissionAsk;
    }
    if f.view_overlay {
        return KeyRoute::ViewOverlay;
    }
    if f.select_overlay {
        return KeyRoute::SelectOverlay;
    }
    if f.slider_overlay {
        return KeyRoute::SliderOverlay;
    }
    if f.picker {
        return KeyRoute::Picker;
    }
    if f.plugin_tree {
        return KeyRoute::PluginTree;
    }
    let plain_key = key.modifiers == 0;
    if f.agent_selection {
        let k = if !plain_key {
            StripKey::Ignore
        } else {
            match key.code {
                KeyCode::Left => StripKey::Previous,
                KeyCode::Right => StripKey::Next,
                KeyCode::Enter => StripKey::Confirm,
                KeyCode::Esc => StripKey::Cancel,
                _ => StripKey::Ignore,
            }
        };
        return KeyRoute::AgentStrip(k);
    }
    if f.viewing_subagent {
        if key.code == KeyCode::Char('q') && plain_key {
            return KeyRoute::LeaveSubagent;
        }
        if key.code == KeyCode::Down && plain_key {
            return KeyRoute::BeginAgentNavigation;
        }
        return KeyRoute::SubagentView;
    }
    if f.vim_active && !f.queue_editing && !f.slash_open && !vim_declined {
        return KeyRoute::OfferVim;
    }
    if f.file_menu {
        if let Some(r) = file_menu_key(key) {
            return r;
        }
    }
    if let Some(selected) = f.queue_selection {
        let n = f.queue_len;
        if n == 0 {
            return KeyRoute::DropQueueSelection;
        }
        if !plain_key {
            return KeyRoute::Ignore;
        }
        return match key.code {
            KeyCode::Up => KeyRoute::QueueSelect(if selected == 0 { n - 1 } else { selected - 1 }),
            KeyCode::Down => KeyRoute::QueueSelect(wrap_next(selected, n)),
            KeyCode::Enter => KeyRoute::EditQueued(if selected < n { selected } else { n - 1 }),
            KeyCode::Esc => KeyRoute::CloseQueueSelection,
            _ => KeyRoute::Ignore,
        };
    }
    if key.code == KeyCode::Char('d') && key.modifiers == CONTROL && f.queue_editing {
        return KeyRoute::ConfirmQueueDelete;
    }
    if key.code == KeyCode::Down && plain_key && !f.viewing_subagent && f.input_empty && !f.history_active
        && f.has_subagents {
        return KeyRoute::BeginAgentNavigation;
    }
    if plain_key && f.slash_open && f.slash_len > 0 && (key.code == KeyCode::Up || key.code == KeyCode::Down) {
        let n = f.slash_len;
        let s = f.slash_sel;
        if key.code == KeyCode::Up {
            return KeyRoute::SlashSelect(if s == 0 { n - 1 } else { s - 1 });
        }
        let next = wrap_next(s, n);
        return KeyRoute::SlashSelect(next);
    }
    if plain_key && f.slash_dismissed && !f.queue_editing {
        if key.code == KeyCode::Up {
            return KeyRoute::HistoryPrevFromDraft;
        }
        if key.code == KeyCode::Down {
            return KeyRoute::HistoryNext;
        }
    }
    KeyRoute::Classify
}

/// With a plugin approval pending, Alt+1 allows this version, Alt+2 allows
/// future versions and Alt+3 rejects, whatever else is open; Alt with any
/// other key is no answer to it.
pub proof fn law_alt_digits_answer_the_approval(f: KeyFacts, key: KeyEvent, vim_declined: bool)
    requires
        f.approval_pending,
        key.modifiers == ALT,
    ensures
        key.code == KeyCode::Char('1') ==> key_route_of(f, key, vim_declined) == KeyRoute::Approval(
            ApprovalDecision::AllowVersion,
        ),
        key.code == KeyCode::Char('2') ==> key_route_of(f, key, vim_declined) == KeyRoute::Approval(
            ApprovalDecision::AllowFuture,
        ),
        key.code == KeyCode::Char('3') ==> key_route_of(f, key, vim_declined) == KeyRoute::Approval(
            ApprovalDecision::Reject,
        ),
        !(key.code == KeyCode::Char('1') || key.code == KeyCode::Char('2') || key.code == KeyCode::Char('3'))
            ==> !(key_route_of(f, key, vim_declined) is Approval),
{
}

/// Without a pending approval no key answers one, and an answer needs Alt
/// alone.
pub proof fn law_approval_needs_alt_and_a_pending_approval(f: KeyFacts, key: KeyEvent, vim_declined: bool)
    requires
        !f.approval_pending || key.modifiers != ALT,
    ensures
        !(key_route_of(f, key, vim_declined) is Approval),
{
}

/// The topmost modal takes every key: while an ACP form is open, each key
/// goes to it unless it answers a pending plugin approval with Alt+1/2/3.
pub proof fn law_form_takes_every_key(f: KeyFacts, key: KeyEvent, vim_declined: bool)
    requires
        f.elicitation,
        !(key.modifiers == ALT && f.approval_pending && approval_of(key) is Some),
    ensures
        key_route_of(f, key, vim_declined) == KeyRoute::Elicitation,
{
}

/// An open picker takes every key no surface above it claims.
pub proof fn law_picker_takes_its_keys(f: KeyFacts, key: KeyEvent, vim_declined: bool)
    requires
        f.picker,
        !f.elicitation,
        !f.permission_ask,
        !f.view_overlay,
        !f.select_overlay,
        !f.slider_overlay,
        !(key.modifiers == ALT && f.approval_pending && approval_of(key) is Some),
    ensures
        key_route_of(f, key, vim_declined) == KeyRoute::Picker,
{
}

/// What the shell has open when Esc is pressed.
pub struct EscFacts {
    pub elicitation: bool,
    pub permission_ask: bool,
    pub picker: bool,
    pub viewing_subagent: bool,
    /// A chat or composer selection is highlighted.
    pub chat_selection: bool,
    pub input_selection: bool,
    /// No turn is under way.
    pub idle: bool,
    pub slash_open: bool,
    /// A queued prompt is being edited, and whether its delete awaits
    /// confirmation.
    pub queue_edit: Option<bool>,
    pub input_empty: bool,
}

/// What Esc does.
#[derive(Clone, Copy, Debug, PartialEq, Eq, Structural)]
pub enum EscAction {
    CancelElicitation,
    CancelPermissionAsk,
    ClosePicker,
    LeaveSubagent,
    /// Only the highlight goes.
    DropSelection,
    DismissSlashMenu,
    /// Back from the delete confirmation to the edit.
    KeepEditing,
    /// Abandon the queue edit; the queue moves on when idle.
    CancelQueueEdit { dispatch_next: bool },
    /// Interrupt the running turn.
    Interrupt,
    /// Put the draft into history and clear it.
    ClearDraft,
    /// Nothing to do: explain Esc.
    IdleHint,
}

/// The outcome of Esc: the action, and whether highlighted selections are
/// dropped on the way (they are whenever Esc gets that far).
#[derive(Clone, Copy, Debug, PartialEq, Eq, Structural)]
pub struct EscOutcome {
    pub action: EscAction,
    pub clear_selections: bool,
}

pub open spec fn esc_of(f: EscFacts) -> EscOutcome {
    if f.elicitation {
        EscOutcome { action: EscAction::CancelElicitation, clear_selections: false }
    } else if f.permission_ask {
        EscOutcome { action: EscAction::CancelPermissionAsk, clear_selections: false }
    } else if f.picker {
        EscOutcome { action: EscAction::ClosePicker, clear_selections: false }
    } else if f.viewing_subagent {
        EscOutcome { action: EscAction::LeaveSubagent, clear_selections: false }
    } else {
        let action = if (f.chat_selection || f.input_selection) && f.idle {
            EscAction::DropSelection
        } else if f.slash_open {
            EscAction::DismissSlashMenu
        } else if f.queue_edit is Some {
            if f.queue_edit->0 {
                EscAction::KeepEditing
            } else {
                EscAction::CancelQueueEdit { dispatch_next: f.idle }
            }
        } else if !f.idle {
            EscAction::Interrupt
        } else if !f.input_empty {
            EscAction::ClearDraft
        } else {
            EscAction::IdleHint
        };
        EscOutcome { action, clear_selections: true }
    }
}

/// What Esc does, from the top of the modal stack down.
pub fn esc_outcome(f: &EscFacts) -> (r: EscOutcome)
    ensures
        r == esc_of(*f),
{
    if f.elicitation {
        return EscOutcome { action: EscAction::CancelElicitation, clear_selections: false };
    }
    if f.permission_ask {
        return EscOutcome { action: EscAction::CancelPermissionAsk, clear_selections: false };
    }
    if f.picker {
        return EscOutcome { action: EscAction::ClosePicker, clear_selections: false };
    }
    if f.viewing_subagent {
        return EscOutcome { action: EscAction::LeaveSubagent, clear_selections: false };
    }
    let action = if (f.chat_selection || f.input_selection) && f.idle {
        EscAction::DropSelection
    } else if f.slash_open {
        EscAction::DismissSlashMenu
    } else {
        match f.queue_edit {
            Some(confirming) => if confirming {
                EscAction::KeepEditing
            } else {
                EscAction::CancelQueueEdit { dispatch_next: f.idle }
            },
            None => if !f.idle {
                EscAction::Interrupt
            } else if !f.input_empty {
                EscAction::ClearDraft
            } else {
                EscAction::IdleHint
            },
        }
    };
    EscOutcome { action, clear_selections: true }
}

/// The quit chord: presses so far and when the first came.
#[derive(Clone, Copy, Debug, PartialEq, Eq, Structural)]
pub struct CtrlCChord {
    pub started_ms: u64,
    pub presses: u32,
}

/// How long an armed quit chord waits for its second press.
pub const CTRL_C_QUIT_WINDOW_MS: u64 = 1500;

/// What Ctrl+C does.
#[derive(Clone, Copy, Debug, PartialEq, Eq, Structural)]
pub enum CtrlCOutcome {
    /// A harness switch is under way: ignored.
    Ignored,
    /// The draft goes into history and is cleared.
    ClearDraft,
    /// The chord is complete.
    Quit,
    /// The chord waits for this many more presses.
    Armed { remaining: u32 },
}

/// Ctrl+C at `now_ms`: ignored during a harness switch, clears a draft
/// (never counting toward the quit chord), and otherwise presses the chord,
/// which quits on its second press.
pub open spec fn ctrl_c_of(switching: bool, input_empty: bool, armed: Option<CtrlCChord>, now_ms: u64) -> (CtrlCOutcome, Option<CtrlCChord>) {
    if switching {
        (CtrlCOutcome::Ignored, None)
    } else if !input_empty {
        (CtrlCOutcome::ClearDraft, None)
    } else {
        let chord = match armed {
            Some(c) => c,
            None => CtrlCChord { started_ms: now_ms, presses: 0 },
        };
        if chord.presses + 1 >= 2 {
            (CtrlCOutcome::Quit, None)
        } else {
            (
                CtrlCOutcome::Armed { remaining: (2 - (chord.presses + 1)) as u32 },
                Some(CtrlCChord { started_ms: chord.started_ms, presses: (chord.presses + 1) as u32 }),
            )
        }
    }
}

/// Ctrl+C at `now_ms`: the outcome and the chord left armed.
pub fn ctrl_c_press(switching: bool, input_empty: bool, armed: Option<CtrlCChord>, now_ms: u64) -> (r: (CtrlCOutcome, Option<CtrlCChord>))
    ensures
        r == ctrl_c_of(switching, input_empty, armed, now_ms),
{
    if switching {
        return (CtrlCOutcome::Ignored, None);
    }
    if !input_empty {
        return (CtrlCOutcome::ClearDraft, None);
    }
    let chord = match armed {
        Some(c) => c,
        None => CtrlCChord { started_ms: now_ms, presses: 0 },
    };
    if chord.presses >= 1 {
        return (CtrlCOutcome::Quit, None);
    }
    (CtrlCOutcome::Armed { remaining: 1 }, Some(CtrlCChord { started_ms: chord.started_ms, presses: 1 }))
}

/// Ctrl+C on the composer: the press as `ctrl_c_press` decides it, with the
/// draft put into history and the composer emptied when the press clears it;
/// otherwise the composer is left as it was.
pub fn ctrl_c_on(recall: &mut Recall, switching: bool, armed: Option<CtrlCChord>, now_ms: u64) -> (r: (
    CtrlCOutcome,
    Option<CtrlCChord>,
))
    requires
        recall_ok(old(recall)@),
    ensures
        r == ctrl_c_of(switching, old(recall)@.buffer.len() == 0, armed, now_ms),
        final(recall)@ == (if r.0 == CtrlCOutcome::ClearDraft {
            cleared_into_history(old(recall)@)
        } else {
            old(recall)@
        }),
        recall_ok(final(recall)@),
{
    let empty = crate::text::char_len(recall.buffer.as_str()) == 0;
    let r = ctrl_c_press(switching, empty, armed, now_ms);
    if r.0 == CtrlCOutcome::ClearDraft {
        recall.clear_into_history();
    }
    r
}

/// Ctrl+C on a draft, outside a harness switch: the draft becomes the newest
/// history entry, the composer is empty, nothing is left armed, and one step
/// up brings the draft back.
pub proof fn law_ctrl_c_keeps_the_draft(v: RecallView, armed: Option<CtrlCChord>, now_ms: u64)
    requires
        recall_ok(v),
        v.buffer.len() > 0,
    ensures
        ctrl_c_of(false, v.buffer.len() == 0, armed, now_ms) == (CtrlCOutcome::ClearDraft, None::<CtrlCChord>),
        cleared_into_history(v).buffer.len() == 0,
        cleared_into_history(v).history == v.history.push(v.buffer),
        recalled_prev(cleared_into_history(v)).buffer == v.buffer,
{
}

/// The chord after a tick at `now_ms`: disarmed once its window lapsed.
pub open spec fn chord_after_tick_of(armed: Option<CtrlCChord>, now_ms: u64) -> Option<CtrlCChord> {
    match armed {
        Some(c) => if now_ms > c.started_ms && now_ms - c.started_ms > CTRL_C_QUIT_WINDOW_MS {
            None
        } else {
            armed
        },
        None => None,
    }
}

/// The chord after a tick at `now_ms`.
pub fn chord_after_tick(armed: Option<CtrlCChord>, now_ms: u64) -> (r: Option<CtrlCChord>)
    ensures
        r == chord_after_tick_of(armed, now_ms),
{
    match armed {
        Some(c) => if now_ms > c.started_ms && now_ms - c.started_ms > CTRL_C_QUIT_WINDOW_MS {
            None
        } else {
            armed
        },
        None => None,
    }
}

/// Two Ctrl+C presses on an empty composer quit, provided no tick between
/// them found the chord's window lapsed; a press that clears a draft
/// leaves nothing armed.
pub proof fn law_double_press_quits(t1: u64, t2: u64)
    requires
        t1 <= t2,
        t2 - t1 <= CTRL_C_QUIT_WINDOW_MS,
    ensures
        ({
            let first = ctrl_c_of(false, true, None, t1);
            &&& first.0 == CtrlCOutcome::Armed { remaining: 1 }
            &&& ctrl_c_of(false, true, chord_after_tick_of(first.1, t2), t2).0 == CtrlCOutcome::Quit
        }),
        ctrl_c_of(false, false, None, t1).1 is None,
{
}

/// Ctrl+C on a draft clears it and never counts toward quitting: whatever
/// chord was armed is dropped, so two presses on an empty composer are
/// still needed afterwards.
pub proof fn law_clearing_never_counts(armed: Option<CtrlCChord>, t1: u64, t2: u64, t3: u64)
    requires
        t2 <= t3,
        t3 - t2 <= CTRL_C_QUIT_WINDOW_MS,
    ensures
        ({
            let cleared = ctrl_c_of(false, false, armed, t1);
            let first = ctrl_c_of(false, true, cleared.1, t2);
            &&& cleared.0 == CtrlCOutcome::ClearDraft
            &&& cleared.1 is None
            &&& first.0 == CtrlCOutcome::Armed { remaining: 1 }
            &&& ctrl_c_of(false, true, chord_after_tick_of(first.1, t3), t3).0 == CtrlCOutcome::Quit
        }),
{
}

/// A view overlay's answer to a key.
#[derive(Clone, Copy, Debug, PartialEq, Eq, Structural)]
pub enum ViewStep {
    /// Scroll by this many rows (any modifiers).
    Scroll(i64),
    Top,
    Bottom,
    /// Close, reporting `submit` (`true`) or `cancel` (`false`).
    Close(bool),
    Ignore,
}

pub open spec fn view_step_of(key: KeyEvent) -> ViewStep {
    match key.code {
        KeyCode::Up => ViewStep::Scroll(-1i64),
        KeyCode::Down => ViewStep::Scroll(1i64),
        KeyCode::PageUp => ViewStep::Scroll(-5i64),
        KeyCode::PageDown => ViewStep::Scroll(5i64),
        KeyCode::Home => ViewStep::Top,
        KeyCode::End => ViewStep::Bottom,
        KeyCode::Esc => if plain(key) { ViewStep::Close(false) } else { ViewStep::Ignore },
        KeyCode::Enter => if plain(key) { ViewStep::Close(true) } else { ViewStep::Ignore },
        _ => ViewStep::Ignore,
    }
}

/// A key on a read-only view overlay: scroll keys work whatever the
/// modifiers; plain Enter submits and plain Esc cancels.
pub fn view_step(key: KeyEvent) -> (r: ViewStep)
    ensures
        r == view_step_of(key),
{
    match key.code {
        KeyCode::Up => ViewStep::Scroll(-1),
        KeyCode::Down => ViewStep::Scroll(1),
        KeyCode::PageUp => ViewStep::Scroll(-5),
        KeyCode::PageDown => ViewStep::Scroll(5),
        KeyCode::Home => ViewStep::Top,
        KeyCode::End => ViewStep::Bottom,
        KeyCode::Esc => if key.modifiers == 0 { ViewStep::Close(false) } else { ViewStep::Ignore },
        KeyCode::Enter => if key.modifiers == 0 { ViewStep::Close(true) } else { ViewStep::Ignore },
        _ => ViewStep::Ignore,
    }
}

/// A scroll offset moved by `delta` rows, stopping at zero and at the
/// largest offset.
pub open spec fn scrolled(offset: usize, delta: i64) -> usize {
    if delta < 0 {
        if offset + delta < 0 { 0 } else { (offset + delta) as usize }
    } else {
        if offset + delta > usize::MAX { usize::MAX } else { (offset + delta) as usize }
    }
}

/// `offset` moved by `delta`, saturating at both ends.
pub fn scroll_offset(offset: usize, delta: i64) -> (r: usize)
    ensures
        r == scrolled(offset, delta),
{
    if delta < 0 {
        let back: u128 = (0i128 - delta as i128) as u128;
        if (offset as u128) < back {
            0
        } else {
            (offset as u128 - back) as usize
        }
    } else {
        let total: u128 = offset as u128 + delta as u128;
        if total > usize::MAX as u128 {
            usize::MAX
        } else {
            total as usize
        }
    }
}

/// A highlight moved by `delta` rows over `len` rows, stopping at the
/// first and the last row.
pub open spec fn stepped(sel: usize, len: usize, delta: i64) -> usize {
    let last: int = if len > 0 { len - 1 } else { 0 };
    let s = scrolled(sel, delta);
    if s > last { last as usize } else { s }
}

/// The offset the top-of-scrollback sentinel (`usize::MAX`) stands for in
/// the last frame drawn: its total rows less the rows shown.
pub open spec fn resolved_offset(scroll_up: usize, total: usize, height: u16) -> int {
    if scroll_up == usize::MAX {
        if total > height { total - height } else { 0 }
    } else {
        scroll_up as int
    }
}

/// The chat's scroll-up offset after a gesture of `delta` rows: the
/// sentinel resolved against the frame the user saw, moved, and stopped at
/// zero.
pub open spec fn chat_scrolled(scroll_up: usize, total: usize, height: u16, delta: i64) -> int {
    if resolved_offset(scroll_up, total, height) + delta < 0 {
        0
    } else {
        resolved_offset(scroll_up, total, height) + delta
    }
}

/// Scroll the chat by `delta` rows from `scroll_up`, with `total` rows and a
/// `height`-row viewport in the last frame. Offsets the signed arithmetic
/// of a gesture cannot hold (beyond `i64::MAX`) are outside the contract.
pub fn chat_scroll_by(scroll_up: usize, total: usize, height: u16, delta: i64) -> (r: usize)
    requires
        scroll_up == usize::MAX || scroll_up <= i64::MAX,
        resolved_offset(scroll_up, total, height) <= i64::MAX,
        i64::MIN <= resolved_offset(scroll_up, total, height) + delta <= i64::MAX,
        chat_scrolled(scroll_up, total, height, delta) <= usize::MAX,
    ensures
        r == chat_scrolled(scroll_up, total, height, delta),
{
    let cur: i64 = if scroll_up == usize::MAX {
        let h = height as usize;
        if total > h { (total - h) as i64 } else { 0 }
    } else {
        scroll_up as i64
    };
    let moved: i64 = cur + delta;
    if moved < 0 { 0 } else { moved as usize }
}

/// `sel` moved by `delta` rows over `len` rows, clamped to the rows.
pub fn step_clamped(sel: usize, len: usize, delta: i64) -> (r: usize)
    ensures
        r == stepped(sel, len, delta),
{
    let last: usize = if len > 0 { len - 1 } else { 0 };
    let s = scroll_offset(sel, delta);
    if s > last { last } else { s }
}

/// What the Enter action does in the composer.
#[derive(Clone, Copy, Debug, PartialEq, Eq, Structural)]
pub enum EnterRoute {
    /// Accept the highlighted `/` menu entry (its position).
    AcceptSlash(usize),
    SaveQueueEdit,
    /// Send the head of the queue now.
    SendQueueHead,
    Submit,
}

pub open spec fn enter_route_of(menu_len: usize, slash_sel: usize, queue_editing: bool, input_empty: bool, images_empty: bool, queue_len: usize) -> EnterRoute {
    if menu_len > 0 {
        EnterRoute::AcceptSlash(if slash_sel < menu_len { slash_sel } else { (menu_len - 1) as usize })
    } else if queue_editing {
        EnterRoute::SaveQueueEdit
    } else if input_empty && images_empty && queue_len > 0 {
        EnterRoute::SendQueueHead
    } else {
        EnterRoute::Submit
    }
}

/// With no `/` menu open and no queue edit, Enter sends the queue head
/// exactly when the composer holds neither text nor images and a prompt
/// waits; everything else is submitted. Typed text is never passed over for
/// the queue.
pub proof fn law_enter_sends_the_head_only_from_an_empty_composer(
    menu_len: usize,
    slash_sel: usize,
    queue_editing: bool,
    input_empty: bool,
    images_empty: bool,
    queue_len: usize,
)
    ensures
        menu_len == 0 && !queue_editing ==> (enter_route_of(
            menu_len,
            slash_sel,
            queue_editing,
            input_empty,
            images_empty,
            queue_len,
        ) == EnterRoute::SendQueueHead <==> (input_empty && images_empty && queue_len > 0)),
        menu_len == 0 && !queue_editing && !(input_empty && images_empty && queue_len > 0) ==> enter_route_of(
            menu_len,
            slash_sel,
            queue_editing,
            input_empty,
            images_empty,
            queue_len,
        ) == EnterRoute::Submit,
        !input_empty ==> enter_route_of(menu_len, slash_sel, queue_editing, input_empty, images_empty, queue_len)
            != EnterRoute::SendQueueHead,
        !images_empty ==> enter_route_of(menu_len, slash_sel, queue_editing, input_empty, images_empty, queue_len)
            != EnterRoute::SendQueueHead,
        queue_len == 0 ==> enter_route_of(menu_len, slash_sel, queue_editing, input_empty, images_empty, queue_len)
            != EnterRoute::SendQueueHead,
        menu_len == 0 && queue_editing ==> enter_route_of(
            menu_len,
            slash_sel,
            queue_editing,
            input_empty,
            images_empty,
            queue_len,
        ) == EnterRoute::SaveQueueEdit,
        menu_len > 0 ==> (enter_route_of(menu_len, slash_sel, queue_editing, input_empty, images_empty, queue_len) matches EnterRoute::AcceptSlash(i)
            && i < menu_len && (slash_sel < menu_len ==> i == slash_sel) && (slash_sel >= menu_len ==> i + 1 == menu_len)),
{
}

/// Enter: the open `/` menu's highlighted entry first, then a queue edit's
/// save, then an empty composer sends the queue head; else submit.
pub fn enter_route(menu_len: usize, slash_sel: usize, queue_editing: bool, input_empty: bool, images_empty: bool, queue_len: usize) -> (r: EnterRoute)
    ensures
        r == enter_route_of(menu_len, slash_sel, queue_editing, input_empty, images_empty, queue_len),
{
    if menu_len > 0 {
        EnterRoute::AcceptSlash(if slash_sel < menu_len { slash_sel } else { menu_len - 1 })
    } else if queue_editing {
        EnterRoute::SaveQueueEdit
    } else if input_empty && images_empty && queue_len > 0 {
        EnterRoute::SendQueueHead
    } else {
        EnterRoute::Submit
    }
}

} // verus!
