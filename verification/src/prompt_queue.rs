//! Prompts waiting for the agent: what Enter does with the composer line,
//! and the queue that holds prompts typed while a turn runs — first in,
//! first out — with its selector and in-place editing.
use vstd::prelude::*;
use crate::menu::{MenuSources, is_builtin, plugin_active};
use crate::queue::{QueuedPrompt, position_of, queue_position};
use crate::staging::StagedBlock;
use crate::text::{chars_of, string_from_range, trim, trim_string, index_of_char, first_index_of, str_eq};

verus! {

/// What submitting the composer line does.
pub enum SubmitRoute {
    /// Images are staged but the line is a command: nothing is sent.
    ImagesBlockCommand,
    /// Run a plugin (or client) command with the argument.
    PluginCommand { name: String, args: String },
    /// Send the skill line to the agent as a prompt.
    SkillPrompt(String),
    /// Run the builtin slash command.
    Slash { name: String, arg: String },
    /// Run the shell command.
    Shell(String),
    /// Send the draft with its staged images.
    Staged,
    /// Send the text as a prompt.
    Text(String),
    /// Nothing to send.
    Nothing,
}

/// Whether some skill called `name` runs on the client.
pub open spec fn client_skill(src: MenuSources, name: Seq<char>) -> bool {
    exists|i: int| 0 <= i < src.skills.len() && #[trigger] src.skills@[i].name@ == name && src.skills@[i].client_command
}

/// Whether some skill is called `name`.
pub open spec fn is_skill(src: MenuSources, name: Seq<char>) -> bool {
    exists|i: int| 0 <= i < src.skills.len() && #[trigger] src.skills@[i].name@ == name
}

/// A `/` line's command name: up to the first space.
pub open spec fn command_name(cmdline: Seq<char>) -> Seq<char> {
    match first_index_of(cmdline, ' ') {
        Some(k) => cmdline.take(k),
        None => cmdline,
    }
}

/// A `/` line's argument: after the first space, trimmed.
pub open spec fn command_arg(cmdline: Seq<char>) -> Seq<char> {
    match first_index_of(cmdline, ' ') {
        Some(k) => trim(cmdline.skip(k + 1)),
        None => Seq::empty(),
    }
}

pub open spec fn submit_view(r: SubmitRoute) -> (int, Seq<char>, Seq<char>) {
    match r {
        SubmitRoute::ImagesBlockCommand => (0, Seq::empty(), Seq::empty()),
        SubmitRoute::PluginCommand { name, args } => (1, name@, args@),
        SubmitRoute::SkillPrompt(t) => (2, t@, Seq::empty()),
        SubmitRoute::Slash { name, arg } => (3, name@, arg@),
        SubmitRoute::Shell(c) => (4, c@, Seq::empty()),
        SubmitRoute::Staged => (5, Seq::empty(), Seq::empty()),
        SubmitRoute::Text(t) => (6, t@, Seq::empty()),
        SubmitRoute::Nothing => (7, Seq::empty(), Seq::empty()),
    }
}

/// What submitting `buffer` does: a `/` line runs a plugin command (one no
/// builtin shadows, or a client skill), goes to the agent as a skill
/// prompt, or runs a builtin; a `!` line runs its (non-empty) shell command;
/// staged images send with the draft; other text is a prompt. A command
/// line cannot carry images.
pub open spec fn submit_of(buffer: Seq<char>, has_images: bool, src: MenuSources) -> (int, Seq<char>, Seq<char>) {
    let text = trim(buffer);
    if has_images && text.len() > 0 && (text[0] == '/' || text[0] == '!') {
        (0, Seq::empty(), Seq::empty())
    } else if text.len() > 0 && text[0] == '/' {
        let cmdline = text.drop_first();
        let name = command_name(cmdline);
        let arg = command_arg(cmdline);
        let builtin = is_builtin(src.builtins@, name);
        if !builtin && (plugin_active(src.plugin_commands@, name) || client_skill(src, name)) {
            (1, name, arg)
        } else if !builtin && is_skill(src, name) {
            (2, text, Seq::empty())
        } else {
            (3, name, arg)
        }
    } else if text.len() > 0 && text[0] == '!' {
        let cmd = trim(text.drop_first());
        if cmd.len() > 0 { (4, cmd, Seq::empty()) } else { (7, Seq::empty(), Seq::empty()) }
    } else if has_images {
        (5, Seq::empty(), Seq::empty())
    } else if text.len() == 0 {
        (7, Seq::empty(), Seq::empty())
    } else {
        (6, text, Seq::empty())
    }
}

/// A command line (`/` or `!`) cannot carry staged images: with images
/// staged it is refused, and nothing else is. Without images a non-empty
/// `!` command runs in the shell and a bare `!` sends nothing.
pub proof fn law_images_block_command_lines(buffer: Seq<char>, has_images: bool, src: MenuSources)
    ensures
        has_images && trim(buffer).len() > 0 && (trim(buffer)[0] == '/' || trim(buffer)[0] == '!') ==> submit_of(
            buffer,
            has_images,
            src,
        ).0 == 0,
        submit_of(buffer, has_images, src).0 == 0 ==> has_images && trim(buffer).len() > 0 && (trim(buffer)[0]
            == '/' || trim(buffer)[0] == '!'),
        !has_images && trim(buffer).len() > 0 && trim(buffer)[0] == '!' && trim(trim(buffer).drop_first()).len()
            > 0 ==> submit_of(buffer, has_images, src) == (4int, trim(trim(buffer).drop_first()), Seq::<char>::empty()),
        has_images && !(trim(buffer).len() > 0 && (trim(buffer)[0] == '/' || trim(buffer)[0] == '!')) ==> submit_of(
            buffer,
            has_images,
            src,
        ).0 == 5,
{
}

/// Refused submissions name the refusal route.
pub proof fn law_refusal_is_images_block_command(r: SubmitRoute)
    ensures
        submit_view(r).0 == 0 <==> r is ImagesBlockCommand,
        submit_view(r).0 == 4 <==> r is Shell,
{
}

fn builtin_named(src: &MenuSources, name: &str) -> (r: bool)
    ensures
        r == is_builtin(src.builtins@, name@),
{
    let mut i: usize = 0;
    while i < src.builtins.len()
        invariant
            i <= src.builtins.len(),
            forall|j: int| 0 <= j < i ==> #[trigger] src.builtins@[j].name@ != name@,
        decreases src.builtins.len() - i,
    {
        if str_eq(src.builtins[i].name.as_str(), name) {
            assert(src.builtins@[i as int].name@ == name@);
            return true;
        }
        i = i + 1;
    }
    false
}

fn plugin_named(src: &MenuSources, name: &str) -> (r: bool)
    ensures
        r == plugin_active(src.plugin_commands@, name@),
{
    let mut i: usize = 0;
    while i < src.plugin_commands.len()
        invariant
            i <= src.plugin_commands.len(),
            forall|j: int| 0 <= j < i ==> #[trigger] src.plugin_commands@[j].name@ != name@,
        decreases src.plugin_commands.len() - i,
    {
        if str_eq(src.plugin_commands[i].name.as_str(), name) {
            assert(src.plugin_commands@[i as int].name@ == name@);
            return true;
        }
        i = i + 1;
    }
    false
}

/// Whether a skill is called `name`, and whether such a skill runs on the
/// client.
fn skill_named(src: &MenuSources, name: &str) -> (r: (bool, bool))
    ensures
        r.0 == is_skill(*src, name@),
        r.1 == client_skill(*src, name@),
{
    let mut any = false;
    let mut client = false;
    let mut i: usize = 0;
    while i < src.skills.len()
        invariant
            i <= src.skills.len(),
            any == exists|j: int| 0 <= j < i && #[trigger] src.skills@[j].name@ == name@,
            client == exists|j: int| 0 <= j < i && #[trigger] src.skills@[j].name@ == name@ && src.skills@[j].client_command,
        decreases src.skills.len() - i,
    {
        if str_eq(src.skills[i].name.as_str(), name) {
            assert(src.skills@[i as int].name@ == name@);
            any = true;
            if src.skills[i].client_command {
                client = true;
            }
        }
        i = i + 1;
    }
    (any, client)
}

/// What submitting the composer line does.
pub fn submit_route(buffer: &str, has_images: bool, src: &MenuSources) -> (r: SubmitRoute)
    ensures
        submit_view(r) == submit_of(buffer@, has_images, *src),
{
    let text = trim_string(buffer);
    let v = chars_of(text.as_str());
    let command = v.len() > 0 && (v[0] == '/' || v[0] == '!');
    if has_images && command {
        return SubmitRoute::ImagesBlockCommand;
    }
    if v.len() > 0 && v[0] == '/' {
        let rest_s = string_from_range(&v, 1, v.len());
        let rest = chars_of(rest_s.as_str());
        assert(rest@ =~= text@.drop_first());
        let (name, arg) = match index_of_char(&rest, ' ') {
            Some(k) => {
                proof {
                    crate::text::lemma_first_index(rest@, ' ', k as int);
                }
                let name = string_from_range(&rest, 0, k);
                let tail = string_from_range(&rest, k + 1, rest.len());
                assert(name@ =~= rest@.take(k as int));
                assert(tail@ =~= rest@.skip(k + 1));
                (name, trim_string(tail.as_str()))
            },
            None => {
                proof {
                    if rest@.contains(' ') {
                        let k = choose|k: int| 0 <= k < rest@.len() && rest@[k] == ' ';
                        assert(rest@[k] == ' ');
                    }
                }
                (rest_s, String::new())
            },
        };
        let builtin = builtin_named(src, name.as_str());
        let (skill, client) = skill_named(src, name.as_str());
        if !builtin && (plugin_named(src, name.as_str()) || client) {
            return SubmitRoute::PluginCommand { name, args: arg };
        }
        if !builtin && skill {
            return SubmitRoute::SkillPrompt(text);
        }
        return SubmitRoute::Slash { name, arg };
    }
    if v.len() > 0 && v[0] == '!' {
        let rest_s = string_from_range(&v, 1, v.len());
        assert(rest_s@ =~= text@.drop_first());
        let cmd = trim_string(rest_s.as_str());
        if crate::text::char_len(cmd.as_str()) > 0 {
            return SubmitRoute::Shell(cmd);
        }
        return SubmitRoute::Nothing;
    }
    if has_images {
        return SubmitRoute::Staged;
    }
    if v.len() == 0 {
        return SubmitRoute::Nothing;
    }
    SubmitRoute::Text(text)
}

/// The queued prompt being edited.
#[derive(Clone, Copy, Debug, PartialEq, Eq, Structural)]
pub struct QueueEdit {
    pub prompt_id: u64,
    /// Ctrl+D asked to delete it; Enter confirms.
    pub delete_confirm: bool,
}

/// The prompt queue: prompts in send order, the selector's highlight, the
/// prompt being edited, and the next prompt id.
pub struct PromptQueue {
    pub prompts: Vec<QueuedPrompt>,
    pub selection: Option<usize>,
    pub edit: Option<QueueEdit>,
    pub next_id: u64,
}

/// Prompt ids are positive, distinct, and below the next id.
pub open spec fn ids_fresh(prompts: Seq<QueuedPrompt>, next_id: u64) -> bool {
    &&& 1 <= next_id
    &&& forall|i: int| 0 <= i < prompts.len() ==> 1 <= (#[trigger] prompts[i]).id < next_id
    &&& forall|i: int, j: int| 0 <= i < j < prompts.len() ==> (#[trigger] prompts[i]).id != (#[trigger] prompts[j]).id
}

/// The id after `id`: counting up, wrapping past the largest to 1.
pub open spec fn id_after(id: u64) -> u64 {
    if id == u64::MAX { 1 } else { (id + 1) as u64 }
}

/// What the queue offers the next turn.
pub enum Dispatch {
    /// The selector or an edit holds the queue.
    Paused,
    /// The tab's session is not bound yet: the prompt stays queued.
    Unbound,
    Empty,
    /// Send this prompt.
    Send(QueuedPrompt),
}

/// What sending the queue head now does.
pub enum HeadNow {
    /// The session is still binding: nothing leaves the queue.
    Unbound,
    /// The composer or the queue UI is busy, or nothing is queued.
    Nothing,
    /// Steer the running turn with this prompt.
    Steer(QueuedPrompt),
    /// Start a turn with this prompt.
    Prompt(QueuedPrompt),
}

/// What opening the queue selector does.
#[derive(Clone, Copy, Debug, PartialEq, Eq, Structural)]
pub enum SelectorOpen {
    /// The selector or an edit is already up.
    Busy,
    /// A draft must be sent or cleared first.
    DraftInTheWay,
    NothingQueued,
    /// The selector opened on the newest prompt.
    Opened,
}

/// What saving or deleting a queue edit did.
#[derive(Clone, Copy, Debug, PartialEq, Eq, Structural)]
pub enum EditOutcome {
    NotEditing,
    /// The edited text is empty: the edit stays open.
    EmptyDraft,
    /// The prompt already left the queue: the edit closed.
    Gone,
    /// The prompt at this position got the new blocks.
    Updated(usize),
    /// The prompt at this position was removed.
    Deleted(usize),
}

/// What the queue shelf shows, without the summaries: prompt ids in order,
/// the selected prompt, the prompt being edited, and whether a delete waits
/// for confirmation. The shelf is redrawn when this changes.
#[derive(Debug, PartialEq, Eq)]
pub struct QueueFingerprint {
    pub ids: Vec<u64>,
    pub selected: Option<u64>,
    pub editing: Option<u64>,
    pub confirming_delete: bool,
}

impl PromptQueue {
    /// The identity of what the queue shelf shows.
    pub fn fingerprint(&self) -> (r: QueueFingerprint)
        ensures
            r.ids@.len() == self.prompts@.len(),
            forall|k: int| 0 <= k < r.ids@.len() ==> r.ids@[k] == (#[trigger] self.prompts@[k]).id,
            r.selected == match self.selection {
                Some(i) => if i < self.prompts@.len() { Some(self.prompts@[i as int].id) } else { None },
                None => None,
            },
            r.editing == match self.edit {
                Some(e) => Some(e.prompt_id),
                None => None,
            },
            r.confirming_delete == (self.edit matches Some(e) && e.delete_confirm),
    {
        let mut ids: Vec<u64> = Vec::new();
        let mut k: usize = 0;
        while k < self.prompts.len()
            invariant
                k <= self.prompts.len(),
                ids@.len() == k,
                forall|j: int| 0 <= j < k ==> ids@[j] == (#[trigger] self.prompts@[j]).id,
            decreases self.prompts.len() - k,
        {
            ids.push(self.prompts[k].id);
            k = k + 1;
        }
        let selected = match self.selection {
            Some(i) => if i < self.prompts.len() { Some(self.prompts[i].id) } else { None },
            None => None,
        };
        let (editing, confirming_delete) = match &self.edit {
            Some(e) => (Some(e.prompt_id), e.delete_confirm),
            None => (None, false),
        };
        QueueFingerprint { ids, selected, editing, confirming_delete }
    }

    /// An empty queue whose first prompt gets id 1.
    pub fn new() -> (r: PromptQueue)
        ensures
            r.prompts@.len() == 0,
            r.selection is None,
            r.edit is None,
            r.next_id == 1,
            ids_fresh(r.prompts@, r.next_id),
    {
        PromptQueue { prompts: Vec::new(), selection: None, edit: None, next_id: 1 }
    }

    /// Hand out the next prompt id.
    pub fn take_id(&mut self) -> (r: u64)
        ensures
            r == old(self).next_id,
            final(self).next_id == id_after(old(self).next_id),
            final(self).prompts == old(self).prompts,
            final(self).selection == old(self).selection,
            final(self).edit == old(self).edit,
    {
        let id = self.next_id;
        self.next_id = if id == u64::MAX { 1 } else { id + 1 };
        id
    }

    /// Queue a prompt at the back under a fresh id.
    pub fn enqueue(&mut self, blocks: Vec<StagedBlock>) -> (r: u64)
        requires
            ids_fresh(old(self).prompts@, old(self).next_id),
            old(self).next_id < u64::MAX,
        ensures
            r == old(self).next_id,
            final(self).prompts@ == old(self).prompts@.push(QueuedPrompt { id: r, blocks }),
            final(self).next_id == old(self).next_id + 1,
            final(self).selection == old(self).selection,
            final(self).edit == old(self).edit,
            ids_fresh(final(self).prompts@, final(self).next_id),
    {
        let id = self.take_id();
        self.prompts.push(QueuedPrompt { id, blocks });
        proof {
            let p = self.prompts@;
            assert forall|i: int, j: int| 0 <= i < j < p.len() implies (#[trigger] p[i]).id != (#[trigger] p[j]).id by {
                if j < p.len() - 1 {
                    assert(p[i] == old(self).prompts@[i]);
                    assert(p[j] == old(self).prompts@[j]);
                } else {
                    assert(p[i] == old(self).prompts@[i]);
                }
            }
            assert forall|i: int| 0 <= i < p.len() implies 1 <= (#[trigger] p[i]).id < self.next_id by {
                if i < p.len() - 1 {
                    assert(p[i] == old(self).prompts@[i]);
                }
            }
        }
        id
    }

    /// Take the oldest prompt for the next turn, unless the selector or an
    /// edit holds the queue or the session is not bound.
    pub fn take_next(&mut self, bound: bool) -> (r: Dispatch)
        ensures
            final(self).selection == old(self).selection,
            final(self).edit == old(self).edit,
            final(self).next_id == old(self).next_id,
            old(self).selection is Some || old(self).edit is Some ==> r is Paused && final(self).prompts == old(
                self,
            ).prompts,
            old(self).selection is None && old(self).edit is None && !bound ==> r is Unbound
                && final(self).prompts == old(self).prompts,
            old(self).selection is None && old(self).edit is None && bound && old(self).prompts.len() == 0
                ==> r is Empty && final(self).prompts == old(self).prompts,
            old(self).selection is None && old(self).edit is None && bound && old(self).prompts.len() > 0 ==> (r
                matches Dispatch::Send(p) && p == old(self).prompts@[0] && final(self).prompts@ == old(
                self,
            ).prompts@.drop_first()),
            ids_fresh(old(self).prompts@, old(self).next_id) ==> ids_fresh(final(self).prompts@, final(self).next_id),
    {
        if self.selection.is_some() || self.edit.is_some() {
            return Dispatch::Paused;
        }
        if !bound {
            return Dispatch::Unbound;
        }
        if self.prompts.len() == 0 {
            return Dispatch::Empty;
        }
        let p = self.prompts.remove(0);
        proof {
            assert(self.prompts@ =~= old(self).prompts@.drop_first());
            assert(old(self).prompts@.remove(0) =~= old(self).prompts@.drop_first());
            if ids_fresh(old(self).prompts@, old(self).next_id) {
                lemma_fresh_remove(old(self).prompts@, old(self).next_id, 0);
            }
        }
        Dispatch::Send(p)
    }

    /// Send the oldest prompt now (steering a running turn): only from an
    /// empty composer with nothing staged and no queue UI open.
    pub fn take_head_now(&mut self, bound: bool, composer_empty: bool, running: bool) -> (r: HeadNow)
        ensures
            final(self).selection == old(self).selection,
            final(self).edit == old(self).edit,
            final(self).next_id == old(self).next_id,
            !bound ==> r is Unbound && final(self).prompts == old(self).prompts,
            bound && (!composer_empty || old(self).selection is Some || old(self).edit is Some
                || old(self).prompts.len() == 0) ==> r is Nothing && final(self).prompts == old(self).prompts,
            bound && composer_empty && old(self).selection is None && old(self).edit is None && old(self).prompts.len()
                > 0 ==> final(self).prompts@ == old(self).prompts@.drop_first() && (if running {
                r matches HeadNow::Steer(p) && p == old(self).prompts@[0]
            } else {
                r matches HeadNow::Prompt(p) && p == old(self).prompts@[0]
            }),
            ids_fresh(old(self).prompts@, old(self).next_id) ==> ids_fresh(final(self).prompts@, final(self).next_id),
    {
        if !bound {
            return HeadNow::Unbound;
        }
        if !composer_empty || self.selection.is_some() || self.edit.is_some() || self.prompts.len() == 0 {
            return HeadNow::Nothing;
        }
        let p = self.prompts.remove(0);
        proof {
            assert(self.prompts@ =~= old(self).prompts@.drop_first());
            assert(old(self).prompts@.remove(0) =~= old(self).prompts@.drop_first());
            if ids_fresh(old(self).prompts@, old(self).next_id) {
                lemma_fresh_remove(old(self).prompts@, old(self).next_id, 0);
            }
        }
        if running {
            HeadNow::Steer(p)
        } else {
            HeadNow::Prompt(p)
        }
    }

    /// Put back a prompt whose steer the agent refused, at the front.
    pub fn requeue_front(&mut self, prompt: QueuedPrompt)
        ensures
            final(self).prompts@ == seq![prompt] + old(self).prompts@,
            final(self).selection == old(self).selection,
            final(self).edit == old(self).edit,
            final(self).next_id == old(self).next_id,
    {
        self.prompts.insert(0, prompt);
        assert(self.prompts@ =~= seq![prompt] + old(self).prompts@);
    }

    /// Open the selector on the newest prompt.
    pub fn open_selector(&mut self, composer_empty: bool) -> (r: SelectorOpen)
        ensures
            final(self).prompts == old(self).prompts,
            final(self).edit == old(self).edit,
            final(self).next_id == old(self).next_id,
            old(self).selection is Some || old(self).edit is Some ==> r == SelectorOpen::Busy && final(self).selection
                == old(self).selection,
            old(self).selection is None && old(self).edit is None && !composer_empty ==> r
                == SelectorOpen::DraftInTheWay && final(self).selection is None,
            old(self).selection is None && old(self).edit is None && composer_empty && old(self).prompts.len() == 0
                ==> r == SelectorOpen::NothingQueued && final(self).selection is None,
            old(self).selection is None && old(self).edit is None && composer_empty && old(self).prompts.len() > 0
                ==> r == SelectorOpen::Opened && final(self).selection == Some((old(self).prompts.len() - 1) as usize),
    {
        if self.selection.is_some() || self.edit.is_some() {
            return SelectorOpen::Busy;
        }
        if !composer_empty {
            return SelectorOpen::DraftInTheWay;
        }
        if self.prompts.len() == 0 {
            return SelectorOpen::NothingQueued;
        }
        self.selection = Some(self.prompts.len() - 1);
        SelectorOpen::Opened
    }

    /// Start editing the prompt at `index` (closing the selector); `None`
    /// when it already left the queue.
    pub fn begin_edit_at(&mut self, index: usize) -> (r: Option<u64>)
        ensures
            final(self).prompts == old(self).prompts,
            final(self).next_id == old(self).next_id,
            final(self).selection is None,
            index < old(self).prompts.len() ==> r == Some(old(self).prompts@[index as int].id) && final(self).edit
                == Some(QueueEdit { prompt_id: old(self).prompts@[index as int].id, delete_confirm: false }),
            index >= old(self).prompts.len() ==> r is None && final(self).edit == old(self).edit,
    {
        self.selection = None;
        if index >= self.prompts.len() {
            return None;
        }
        let id = self.prompts[index].id;
        self.edit = Some(QueueEdit { prompt_id: id, delete_confirm: false });
        Some(id)
    }

    /// Ctrl+D during an edit: ask to confirm the delete.
    pub fn arm_delete(&mut self)
        ensures
            final(self).prompts == old(self).prompts,
            final(self).selection == old(self).selection,
            final(self).next_id == old(self).next_id,
            final(self).edit == match old(self).edit {
                Some(e) => Some(QueueEdit { prompt_id: e.prompt_id, delete_confirm: true }),
                None => None,
            },
    {
        if let Some(e) = self.edit {
            self.edit = Some(QueueEdit { prompt_id: e.prompt_id, delete_confirm: true });
        }
    }

    /// Esc during an edit: back out of a delete confirmation, else close
    /// the edit. Returns whether the edit closed.
    pub fn cancel_edit(&mut self) -> (r: bool)
        ensures
            final(self).prompts == old(self).prompts,
            final(self).selection == old(self).selection,
            final(self).next_id == old(self).next_id,
            match old(self).edit {
                Some(e) => if e.delete_confirm {
                    !r && final(self).edit == Some(QueueEdit { prompt_id: e.prompt_id, delete_confirm: false })
                } else {
                    r && final(self).edit is None
                },
                None => !r && final(self).edit is None,
            },
    {
        match self.edit {
            Some(e) => if e.delete_confirm {
                self.edit = Some(QueueEdit { prompt_id: e.prompt_id, delete_confirm: false });
                false
            } else {
                self.edit = None;
                true
            },
            None => false,
        }
    }

    /// Remove the prompt being edited.
    pub fn delete_edit(&mut self) -> (r: EditOutcome)
        ensures
            final(self).selection == old(self).selection,
            final(self).next_id == old(self).next_id,
            match old(self).edit {
                None => r == EditOutcome::NotEditing && final(self).prompts == old(self).prompts && final(self).edit
                    is None,
                Some(e) => final(self).edit is None && match position_of(old(self).prompts@, e.prompt_id) {
                    Some(i) => r == EditOutcome::Deleted(i as usize) && final(self).prompts@ == old(
                        self,
                    ).prompts@.remove(i),
                    None => r == EditOutcome::Gone && final(self).prompts == old(self).prompts,
                },
            },
            ids_fresh(old(self).prompts@, old(self).next_id) ==> ids_fresh(final(self).prompts@, final(self).next_id),
    {
        let id = match self.edit {
            Some(e) => e.prompt_id,
            None => {
                return EditOutcome::NotEditing;
            },
        };
        self.edit = None;
        match queue_position(&self.prompts, id) {
            Some(i) => {
                proof {
                    lemma_position_of_found(old(self).prompts@, id);
                }
                self.prompts.remove(i);
                proof {
                    if ids_fresh(old(self).prompts@, old(self).next_id) {
                        lemma_fresh_remove(old(self).prompts@, old(self).next_id, i as int);
                    }
                }
                EditOutcome::Deleted(i)
            },
            None => EditOutcome::Gone,
        }
    }

    /// Enter during an edit: confirm a pending delete, else give the prompt
    /// the edited blocks (`None` when the edited draft is empty, which
    /// keeps the edit open).
    pub fn save_edit(&mut self, blocks: Option<Vec<StagedBlock>>) -> (r: EditOutcome)
        ensures
            final(self).selection == old(self).selection,
            final(self).next_id == old(self).next_id,
            match old(self).edit {
                None => r == EditOutcome::NotEditing && final(self).prompts == old(self).prompts && final(self).edit
                    is None,
                Some(e) => if e.delete_confirm {
                    final(self).edit is None && match position_of(old(self).prompts@, e.prompt_id) {
                        Some(i) => r == EditOutcome::Deleted(i as usize) && final(self).prompts@ == old(
                            self,
                        ).prompts@.remove(i),
                        None => r == EditOutcome::Gone && final(self).prompts == old(self).prompts,
                    }
                } else {
                    match blocks {
                        None => r == EditOutcome::EmptyDraft && final(self).prompts == old(self).prompts
                            && final(self).edit == old(self).edit,
                        Some(b) => final(self).edit is None && match position_of(old(self).prompts@, e.prompt_id) {
                            Some(i) => r == EditOutcome::Updated(i as usize) && final(self).prompts@ == old(
                                self,
                            ).prompts@.update(i, QueuedPrompt { id: e.prompt_id, blocks: b }),
                            None => r == EditOutcome::Gone && final(self).prompts == old(self).prompts,
                        },
                    }
                },
            },
            ids_fresh(old(self).prompts@, old(self).next_id) ==> ids_fresh(final(self).prompts@, final(self).next_id),
    {
        let e = match self.edit {
            Some(e) => e,
            None => {
                return EditOutcome::NotEditing;
            },
        };
        if e.delete_confirm {
            return self.delete_edit();
        }
        let b = match blocks {
            Some(b) => b,
            None => {
                return EditOutcome::EmptyDraft;
            },
        };
        self.edit = None;
        match queue_position(&self.prompts, e.prompt_id) {
            Some(i) => {
                proof {
                    lemma_position_of_found(old(self).prompts@, e.prompt_id);
                }
                self.prompts.set(i, QueuedPrompt { id: e.prompt_id, blocks: b });
                proof {
                    if ids_fresh(old(self).prompts@, old(self).next_id) {
                        lemma_fresh_update(old(self).prompts@, old(self).next_id, i as int, self.prompts@[i as int]);
                    }
                }
                EditOutcome::Updated(i)
            },
            None => EditOutcome::Gone,
        }
    }
}

proof fn lemma_position_of_found(queue: Seq<QueuedPrompt>, id: u64)
    ensures
        position_of(queue, id) matches Some(i) ==> 0 <= i < queue.len() && queue[i].id == id,
    decreases queue.len(),
{
    if queue.len() > 0 && queue[0].id != id {
        lemma_position_of_found(queue.drop_first(), id);
    }
}

proof fn lemma_fresh_remove(o: Seq<QueuedPrompt>, n: u64, i: int)
    requires
        ids_fresh(o, n),
        0 <= i < o.len(),
    ensures
        ids_fresh(o.remove(i), n),
{
    let q = o.remove(i);
    assert forall|a: int| 0 <= a < q.len() implies #[trigger] q[a] == (if a < i { o[a] } else { o[a + 1] }) by {}
    assert forall|a: int, b: int| 0 <= a < b < q.len() implies (#[trigger] q[a]).id != (#[trigger] q[b]).id by {
        let oa = if a < i { a } else { a + 1 };
        let ob = if b < i { b } else { b + 1 };
        assert(q[a] == o[oa]);
        assert(q[b] == o[ob]);
    }
    assert forall|a: int| 0 <= a < q.len() implies 1 <= (#[trigger] q[a]).id < n by {
        let oa = if a < i { a } else { a + 1 };
        assert(q[a] == o[oa]);
    }
}

proof fn lemma_fresh_update(o: Seq<QueuedPrompt>, n: u64, i: int, p: QueuedPrompt)
    requires
        ids_fresh(o, n),
        0 <= i < o.len(),
        p.id == o[i].id,
    ensures
        ids_fresh(o.update(i, p), n),
{
    let q = o.update(i, p);
    assert forall|a: int| 0 <= a < q.len() implies (#[trigger] q[a]).id == o[a].id by {}
    assert forall|a: int, b: int| 0 <= a < b < q.len() implies (#[trigger] q[a]).id != (#[trigger] q[b]).id by {
        assert(q[a].id == o[a].id);
        assert(q[b].id == o[b].id);
    }
}

/// A new prompt waits in the queue while a turn runs, a prompt is pending,
/// others already wait, or the tab's session is not bound yet (an unbound
/// placeholder id must not be sent).
pub open spec fn must_queue(running: bool, prompt_pending: bool, queued: u64, bound: bool) -> bool {
    running || prompt_pending || queued > 0 || !bound
}

/// What became of agent text from the composer.
pub enum AgentText {
    /// Queued under this id, to go out when the agent is free.
    Queued(u64),
    /// To be sent now, as this text.
    Send(String),
}

impl PromptQueue {
    /// Agent text from the composer: queued as one text block when it must
    /// wait (see `must_queue`), handed back to be sent otherwise. `queued` is
    /// the shell's count of prompts waiting.
    pub fn agent_text(&mut self, text: String, running: bool, prompt_pending: bool, queued: u64, bound: bool) -> (r: AgentText)
        requires
            ids_fresh(old(self).prompts@, old(self).next_id),
            old(self).next_id < u64::MAX,
        ensures
            must_queue(running, prompt_pending, queued, bound) ==> {
                &&& r == AgentText::Queued(old(self).next_id)
                &&& final(self).prompts@.len() == old(self).prompts@.len() + 1
                &&& final(self).prompts@.drop_last() == old(self).prompts@
                &&& final(self).prompts@.last().id == old(self).next_id
                &&& crate::staging::block_views(final(self).prompts@.last().blocks@) == seq![
                    crate::staging::BlockView::Text(text@),
                ]
                &&& final(self).next_id == old(self).next_id + 1
            },
            !must_queue(running, prompt_pending, queued, bound) ==> (r matches AgentText::Send(t) && t@ == text@
                && final(self).prompts == old(self).prompts && final(self).next_id == old(self).next_id),
            final(self).selection == old(self).selection,
            final(self).edit == old(self).edit,
            ids_fresh(final(self).prompts@, final(self).next_id),
    {
        if running || prompt_pending || queued > 0 || !bound {
            let ghost t = text@;
            let blocks = vec![StagedBlock::Text(text)];
            assert(crate::staging::block_views(blocks@) =~= seq![crate::staging::BlockView::Text(t)]);
            let ghost before = self.prompts@;
            let id = self.enqueue(blocks);
            assert(self.prompts@.drop_last() =~= before);
            AgentText::Queued(id)
        } else {
            AgentText::Send(text)
        }
    }
}

/// What sending the composer line right away does (Alt+Enter, or Enter
/// while a turn runs).
#[derive(Debug, PartialEq, Eq)]
pub enum SendNow {
    /// Images are staged and the line is a `/command` or `!shell`: refused.
    ImagesWithCommand,
    /// Nothing to send.
    Empty,
    /// Send the staged blocks (text and images); `steer` while a turn runs.
    Staged { steer: bool },
    /// Send the trimmed line as text; `steer` while a turn runs.
    Text { text: String, steer: bool },
}

/// What sending right away does with the composer line `buffer`: staged
/// images refuse a command line and otherwise travel with it; a blank line
/// without images sends nothing; a turn in flight (or waiting, or queued)
/// makes it a steer.
pub fn send_now_plan(buffer: &str, images_staged: bool, running: bool) -> (r: SendNow)
    ensures
        ({
            let t = trim(buffer@);
            let command = t.len() > 0 && (t[0] == '/' || t[0] == '!');
            &&& images_staged && command ==> r == SendNow::ImagesWithCommand
            &&& images_staged && !command ==> r == SendNow::Staged { steer: running }
            &&& !images_staged && t.len() == 0 ==> r == SendNow::Empty
            &&& !images_staged && t.len() > 0 ==> (r matches SendNow::Text { text, steer } && text@ == t && steer == running)
        }),
{
    let text = trim_string(buffer);
    let v = chars_of(text.as_str());
    let command = v.len() > 0 && (v[0] == '/' || v[0] == '!');
    if images_staged {
        if command {
            return SendNow::ImagesWithCommand;
        }
        return SendNow::Staged { steer: running };
    }
    if v.len() == 0 {
        return SendNow::Empty;
    }
    SendNow::Text { text, steer: running }
}

/// The run note while images are sent.
pub fn sending_images_note(n: usize, zh: bool) -> (r: String)
    ensures
        n == 1 ==> r@ == (if zh { "正在发送图片"@ } else { "sending image"@ }),
        n != 1 ==> r@ == (if zh { "正在发送 "@ } else { "sending "@ }) + crate::numfmt::decimal(n as nat)
            + (if zh { " 张图片"@ } else { " images"@ }),
{
    if n == 1 {
        return (if zh { "正在发送图片" } else { "sending image" }).to_owned();
    }
    let count = crate::numfmt::format_decimal(n as u64);
    let a = crate::text::concat_str(if zh { "正在发送 " } else { "sending " }, count.as_str());
    crate::text::concat_str(a.as_str(), if zh { " 张图片" } else { " images" })
}

} // verus!
