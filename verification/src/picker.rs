//! Picker models: the popup list, the `/` menu entries, and the plugin
//! single-select form with its search filter and validation.
use vstd::prelude::*;
use crate::text::{
    chars_of, concat_str, find_seq, index_of_char, is_blank, is_control, occurs_at, seq_eq,
    split_words, str_is_blank, str_to_lowercase, string_from_range, to_lowercase, words,
    char_is_control, string_from,
};
use crate::keys::{KeyCode, KeyEvent, CONTROL, SHIFT,
};

verus! {

/// Which list a picker popup shows.
#[derive(Clone, Copy, Debug, PartialEq, Eq, Structural)]
pub enum PickerKind {
    Model,
    Effort,
    Mode,
    Theme,
    UiPlugin,
    Permission,
    Session,
    Auth,
    CordisPlugin,
    CordisApproval,
    AgentHistory,
    Harness,
}

/// One picker row.
pub struct PickerItem {
    pub id: String,
    pub label: String,
    pub meta: String,
    pub provider: Option<String>,
}

/// Fixed display width of the picker label column.
pub const PICKER_LABEL_COL: usize = 30;

/// One `/` menu entry: a builtin command or a host skill. Builtins win a
/// name collision.
pub struct SlashEntry {
    pub disabled: bool,
    pub name: String,
    pub usage: String,
    pub desc: String,
    pub skill: bool,
    pub plugin: bool,
    /// Visual group for argument candidates.
    pub section: Option<String>,
    /// Full composer text for an argument candidate.
    pub completion: Option<String>,
}

/// One option of a plugin single-select form.
pub struct SelectOption {
    pub disabled: bool,
    pub deletable: bool,
    pub value: String,
    pub label: String,
    pub description: Option<String>,
    /// Decorative section label; never contributes an option index or value.
    pub group: Option<String>,
}

/// A plugin single-select form rendered by the native compositor.
pub struct SelectOverlay {
    pub id: String,
    pub title: String,
    pub value: String,
    pub options: Vec<SelectOption>,
    pub searchable: bool,
    pub query: String,
    pub sel: usize,
}

/// A node of a semantic view tree.
pub enum TuiNode {
    Markdown { id: String, text: String, streaming: bool },
    Image { id: String, name: String, mime: String, data_base64: Option<String> },
}

/// A read-only modal rendered from a semantic node tree.
pub struct ViewOverlay {
    pub id: String,
    pub title: String,
    pub nodes: Vec<TuiNode>,
    pub scroll: usize,
    /// Plugin-owned views report submit/cancel to the plugin; builtin chrome
    /// closes inside the painter.
    pub notify_plugin: bool,
}

/// A picker popup: its rows, the highlighted row and the viewport's first row.
pub struct Picker {
    pub kind: PickerKind,
    pub title: String,
    pub sel: usize,
    pub items: Vec<PickerItem>,
    pub offset: usize,
}

/// The text a search query is matched against: value, label and
/// description, separated by single spaces.
pub open spec fn option_text(o: SelectOption) -> Seq<char> {
    o.value@ + seq![' '] + o.label@ + seq![' '] + match o.description {
        Some(d) => d@,
        None => Seq::empty(),
    }
}

pub open spec fn contains_seq(s: Seq<char>, t: Seq<char>) -> bool {
    exists|at: int| occurs_at(s, t, at)
}

/// An option is shown when the form is not searchable, or when every
/// whitespace-separated term of the lower-cased query occurs in its
/// lower-cased text.
pub open spec fn option_visible(o: SelectOption, searchable: bool, query: Seq<char>) -> bool {
    let terms = words(str_to_lowercase(query));
    !searchable || forall|k: int|
        0 <= k < terms.len() ==> contains_seq(str_to_lowercase(option_text(o)), #[trigger] terms[k])
}

/// The indices of the shown options among the first `options.len()`, in order.
pub open spec fn visible_of(options: Seq<SelectOption>, searchable: bool, query: Seq<char>) -> Seq<usize>
    decreases options.len(),
{
    if options.len() == 0 {
        Seq::empty()
    } else {
        let rest = visible_of(options.drop_last(), searchable, query);
        if option_visible(options.last(), searchable, query) {
            rest.push((options.len() - 1) as usize)
        } else {
            rest
        }
    }
}

impl SelectOverlay {
    pub open spec fn spec_visible(&self) -> Seq<usize> {
        visible_of(self.options@, self.searchable, self.query@)
    }

    /// Indices of the options the current search shows, in order.
    pub fn visible_indices(&self) -> (r: Vec<usize>)
        ensures
            r@ == self.spec_visible(),
    {
        let query = to_lowercase(self.query.as_str());
        let qchars = chars_of(query.as_str());
        let terms = split_words(&qchars);
        let mut out: Vec<usize> = Vec::new();
        let mut index: usize = 0;
        while index < self.options.len()
            invariant
                index <= self.options.len(),
                terms@.map_values(|w: Vec<char>| w@) == words(str_to_lowercase(self.query@)),
                out@ == visible_of(self.options@.take(index as int), self.searchable, self.query@),
            decreases self.options.len() - index,
        {
            let option = &self.options[index];
            let mut shown = true;
            if self.searchable {
                let desc = match &option.description {
                    Some(d) => d.clone(),
                    None => String::new(),
                };
                let head = concat_str(option.value.as_str(), " ");
                let head = concat_str(head.as_str(), option.label.as_str());
                let head = concat_str(head.as_str(), " ");
                let text = concat_str(head.as_str(), desc.as_str());
                proof {
                    reveal_strlit(" ");
                    assert(text@ =~= option_text(*option));
                }
                let lowered = to_lowercase(text.as_str());
                let hay = chars_of(lowered.as_str());
                let mut k: usize = 0;
                while shown && k < terms.len()
                    invariant
                        k <= terms.len(),
                        shown ==> forall|j: int| 0 <= j < k ==> contains_seq(hay@, #[trigger] terms@[j]@),
                        !shown ==> k < terms.len() && !contains_seq(hay@, terms@[k as int]@),
                    decreases terms.len() - k + if shown { 1int } else { 0int },
                {
                    match find_seq(&hay, &terms[k]) {
                        Some(at) => {
                            assert(occurs_at(hay@, terms@[k as int]@, at as int));
                            k = k + 1;
                        },
                        None => {
                            shown = false;
                        },
                    }
                }
                proof {
                    let tv = terms@.map_values(|w: Vec<char>| w@);
                    assert(hay@ == str_to_lowercase(option_text(*option)));
                    if shown {
                        assert forall|j: int| 0 <= j < tv.len() implies contains_seq(
                            str_to_lowercase(option_text(*option)),
                            #[trigger] tv[j],
                        ) by {
                            assert(tv[j] == terms@[j]@);
                        }
                    } else {
                        assert(tv[k as int] == terms@[k as int]@);
                        assert(!contains_seq(str_to_lowercase(option_text(*option)), tv[k as int]));
                    }
                }
            }
            let ghost before = out@;
            if shown {
                out.push(index);
            }
            assert(self.options@.take(index + 1).drop_last() =~= self.options@.take(index as int));
            index = index + 1;
        }
        assert(self.options@.take(self.options.len() as int) =~= self.options@);
        out
    }

    /// Keep the selection on a shown option (the first shown one when the
    /// search hid it) and mirror the selected option's value.
    pub fn reconcile_search(&mut self)
        ensures
            ({
                let vis = old(self).spec_visible();
                final(self).sel == if vis.contains(old(self).sel) || vis.len() == 0 {
                    old(self).sel
                } else {
                    vis[0]
                }
            }),
            final(self).sel < old(self).options.len() ==> final(self).value@
                == old(self).options@[final(self).sel as int].value@,
            final(self).sel >= old(self).options.len() ==> final(self).value == old(self).value,
            final(self).options == old(self).options,
            final(self).id == old(self).id,
            final(self).title == old(self).title,
            final(self).query == old(self).query,
            final(self).searchable == old(self).searchable,
    {
        let visible = self.visible_indices();
        let mut found = false;
        let mut i: usize = 0;
        while !found && i < visible.len()
            invariant
                i <= visible.len(),
                found ==> visible@.contains(self.sel),
                !found ==> forall|j: int| 0 <= j < i ==> visible@[j] != self.sel,
            decreases visible.len() - i + if found { 0int } else { 1int },
        {
            if visible[i] == self.sel {
                found = true;
            } else {
                i = i + 1;
            }
        }
        if !found && visible.len() > 0 {
            self.sel = visible[0];
        }
        if self.sel < self.options.len() {
            self.value = self.options[self.sel].value.clone();
        }
    }
}

/// A group label the form accepts: not blank, and free of control
/// characters and line/paragraph separators.
pub open spec fn group_ok(group: Option<String>) -> bool {
    match group {
        Some(g) => !is_blank(g@) && forall|i: int|
            0 <= i < g@.len() ==> !is_control(#[trigger] g@[i]) && g@[i] != '\u{2028}' && g@[i]
                != '\u{2029}',
        None => true,
    }
}

/// An option the form accepts: non-empty value and label, acceptable group.
pub open spec fn option_ok(o: SelectOption) -> bool {
    o.value@.len() > 0 && o.label@.len() > 0 && group_ok(o.group)
}

/// A form the compositor can render: id, title and options present, every
/// option acceptable, and option values pairwise distinct.
pub open spec fn select_ok(s: SelectOverlay) -> bool {
    &&& s.id@.len() > 0
    &&& s.title@.len() > 0
    &&& s.options@.len() > 0
    &&& forall|i: int| 0 <= i < s.options@.len() ==> option_ok(#[trigger] s.options@[i])
    &&& forall|i: int, j: int|
        0 <= i < j < s.options@.len() ==> s.options@[i].value@ != s.options@[j].value@
}

#[verifier::loop_isolation(false)]
fn group_accepted(group: &Option<String>) -> (b: bool)
    ensures
        b == group_ok(*group),
{
    match group {
        Some(g) => {
            if str_is_blank(g.as_str()) {
                return false;
            }
            let v = chars_of(g.as_str());
            let mut i: usize = 0;
            while i < v.len()
                invariant
                    i <= v.len(),
                    v@ == g@,
                    forall|j: int| 0 <= j < i ==> !is_control(#[trigger] v@[j]) && v@[j] != '\u{2028}' && v@[j] != '\u{2029}',
                decreases v.len() - i,
            {
                let c = v[i];
                if char_is_control(c) || c == '\u{2028}' || c == '\u{2029}' {
                    assert(g@[i as int] == c);
                    return false;
                }
                i = i + 1;
            }
            true
        },
        None => true,
    }
}

/// The option index a fresh form starts on: the option whose value equals
/// the form's value — `None` when the form is malformed or no option matches.
pub fn select_initial_index(select: &SelectOverlay) -> (r: Option<usize>)
    ensures
        match r {
            Some(i) => select_ok(*select) && i < select.options.len()
                && select.options@[i as int].value@ == select.value@
                && forall|j: int| 0 <= j < i ==> select.options@[j].value@ != select.value@,
            None => !select_ok(*select) || forall|j: int|
                0 <= j < select.options.len() ==> select.options@[j].value@ != select.value@,
        },
{
    if char_len_is_zero(select.id.as_str()) || char_len_is_zero(select.title.as_str())
        || select.options.len() == 0 {
        return None;
    }
    let mut i: usize = 0;
    while i < select.options.len()
        invariant
            i <= select.options.len(),
            forall|k: int| 0 <= k < i ==> option_ok(#[trigger] select.options@[k]),
            forall|a: int, b: int| 0 <= a < b < i ==> select.options@[a].value@ != select.options@[b].value@,
        decreases select.options.len() - i,
    {
        let option = &select.options[i];
        if char_len_is_zero(option.value.as_str()) || char_len_is_zero(option.label.as_str())
            || !group_accepted(&option.group) {
            return None;
        }
        let mut j: usize = 0;
        while j < i
            invariant
                j <= i < select.options.len(),
                forall|a: int| 0 <= a < j ==> select.options@[a].value@ != select.options@[i as int].value@,
            decreases i - j,
        {
            if seq_eq(&chars_of(select.options[j].value.as_str()), &chars_of(select.options[i].value.as_str())) {
                assert(!select_ok(*select)) by {
                    assert(select.options@[j as int].value@ == select.options@[i as int].value@);
                }
                return None;
            }
            j = j + 1;
        }
        i = i + 1;
    }
    let target = chars_of(select.value.as_str());
    let mut k: usize = 0;
    while k < select.options.len()
        invariant
            k <= select.options.len(),
            target@ == select.value@,
            select_ok(*select),
            forall|j: int| 0 <= j < k ==> select.options@[j].value@ != select.value@,
        decreases select.options.len() - k,
    {
        if seq_eq(&chars_of(select.options[k].value.as_str()), &target) {
            return Some(k);
        }
        k = k + 1;
    }
    None
}

fn char_len_is_zero(s: &str) -> (b: bool)
    ensures
        b == (s@.len() == 0),
{
    chars_of(s).len() == 0
}

/// The text before the first `/` (`split_once('/')`), or `None` without one.
pub open spec fn scope_of(module: Seq<char>) -> Option<Seq<char>> {
    if module.contains('/') {
        let i = choose|i: int| 0 <= i < module.len() && module[i] == '/' && forall|j: int| 0 <= j < i ==> module[j] != '/';
        Some(module.take(i))
    } else {
        None
    }
}

/// The text after the first `/`, or `None` without one.
pub open spec fn unscoped_of(module: Seq<char>) -> Option<Seq<char>> {
    if module.contains('/') {
        let i = choose|i: int| 0 <= i < module.len() && module[i] == '/' && forall|j: int| 0 <= j < i ==> module[j] != '/';
        Some(module.skip(i + 1))
    } else {
        None
    }
}

proof fn lemma_first_slash(module: Seq<char>, i: int)
    requires
        0 <= i < module.len(),
        module[i] == '/',
        forall|j: int| 0 <= j < i ==> module[j] != '/',
    ensures
        scope_of(module) == Some(module.take(i)),
        unscoped_of(module) == Some(module.skip(i + 1)),
{
    assert(module.contains('/'));
    let k = choose|k: int| 0 <= k < module.len() && module[k] == '/' && forall|j: int| 0 <= j < k ==> module[j] != '/';
    assert(k == i) by {
        if k < i {
            assert(module[k] != '/');
        }
        if i < k {
            assert(module[i] != '/');
        }
    }
}

/// The provider bucket for one loader entry: the npm scope when the module
/// name carries one, otherwise `core`.
pub fn plugin_provider(module: &str) -> (r: String)
    ensures
        r@ == match scope_of(module@) {
            Some(scope) => scope,
            None => "core"@,
        },
{
    let v = chars_of(module);
    match index_of_char(&v, '/') {
        Some(i) => {
            proof {
                lemma_first_slash(v@, i as int);
            }
            string_from_range(&v, 0, i)
        },
        None => "core".to_string(),
    }
}

/// The plugin name shown under its provider: the module name without the
/// npm scope (`@deepseek-ai/dsh-agent` → `dsh-agent`).
pub fn plugin_short_name(module: &str) -> (r: String)
    ensures
        r@ == match unscoped_of(module@) {
            Some(name) => name,
            None => module@,
        },
{
    let v = chars_of(module);
    match index_of_char(&v, '/') {
        Some(i) => {
            proof {
                lemma_first_slash(v@, i as int);
            }
            string_from_range(&v, i + 1, v.len())
        },
        None => module.to_string(),
    }
}

/// A wheel step over a list of `len` rows: one notch per unit of `delta`,
/// clamped to the first and last row (only the arrow keys wrap).
pub open spec fn scrolled_sel(sel: int, len: int, delta: int) -> int {
    let last = if len > 0 { len - 1 } else { 0 };
    let moved = sel + delta;
    if moved < 0 {
        0
    } else if moved > last {
        last
    } else {
        moved
    }
}

/// Move a selection by `delta` rows, clamped to `0..len`.
pub fn scroll_selection(sel: usize, len: usize, delta: i64) -> (r: usize)
    requires
        sel < len || len == 0 && sel == 0,
    ensures
        r == scrolled_sel(sel as int, len as int, delta as int),
{
    let last = if len > 0 { len - 1 } else { 0 };
    if delta < 0 {
        let back: u64 = if delta == i64::MIN { (i64::MAX as u64) + 1 } else { (-delta) as u64 };
        if (back as u128) >= (sel as u128) {
            0
        } else {
            let s = sel - (back as usize);
            if s > last { last } else { s }
        }
    } else {
        let fwd = delta as u64;
        if (fwd as u128) >= ((last - sel) as u128) {
            last
        } else {
            sel + (fwd as usize)
        }
    }
}

impl Picker {
    /// Wheel-scroll the highlight: one notch per unit, clamped at both ends.
    pub fn scroll_by(&mut self, delta: i64)
        requires
            old(self).sel < old(self).items.len() || old(self).items.len() == 0 && old(self).sel == 0,
        ensures
            final(self).sel == scrolled_sel(old(self).sel as int, old(self).items.len() as int, delta as int),
            final(self).items == old(self).items,
            final(self).kind == old(self).kind,
            final(self).offset == old(self).offset,
    {
        self.sel = scroll_selection(self.sel, self.items.len(), delta);
    }
}

/// A subagent's transcript view; `T` is the transcript it shows.
pub struct SubagentView<T> {
    pub id: String,
    pub parent: String,
    pub label: String,
    pub running: bool,
    pub failed: bool,
    pub transcript: T,
}

/// The first view for subagent `child`.
pub open spec fn view_of<T>(views: Seq<SubagentView<T>>, child: Seq<char>) -> Option<int>
    decreases views.len(),
{
    if views.len() == 0 {
        None
    } else if views[0].id@ == child {
        Some(0)
    } else {
        match view_of(views.drop_first(), child) {
            Some(i) => Some(i + 1),
            None => None,
        }
    }
}

proof fn lemma_view_of<T>(views: Seq<SubagentView<T>>, child: Seq<char>, k: int)
    requires
        0 <= k <= views.len(),
        forall|j: int| 0 <= j < k ==> (#[trigger] views[j]).id@ != child,
    ensures
        k < views.len() && views[k].id@ == child ==> view_of(views, child) == Some(k),
        k == views.len() ==> view_of(views, child) is None,
    decreases k,
{
    if k > 0 {
        assert forall|j: int| 0 <= j < k - 1 implies (#[trigger] views.drop_first()[j]).id@ != child by {
            assert(views.drop_first()[j] == views[j + 1]);
        }
        if k < views.len() {
            assert(views.drop_first()[k - 1] == views[k]);
        }
        lemma_view_of(views.drop_first(), child, k - 1);
        assert(views[0].id@ != child);
    }
}

/// Register (or revive) the view of a started subagent: an existing view of
/// `child` runs again and is no longer failed; otherwise a new running view
/// labelled `<label_prefix><n>` (its position, counting from one) is added
/// with `transcript`.
pub fn upsert_subagent_view<T>(
    views: &mut Vec<SubagentView<T>>,
    parent: &str,
    child: &str,
    label_prefix: &str,
    transcript: T,
)
    requires
        old(views).len() < u64::MAX,
    ensures
        match view_of(old(views)@, child@) {
            Some(i) => final(views)@ == old(views)@.update(
                i,
                SubagentView { running: true, failed: false, ..old(views)@[i] },
            ),
            None => final(views)@.len() == old(views)@.len() + 1 && final(views)@.take(
                old(views)@.len() as int,
            ) == old(views)@ && ({
                let v = final(views)@.last();
                &&& v.id@ == child@
                &&& v.parent@ == parent@
                &&& v.label@ == label_prefix@ + crate::numfmt::decimal(old(views)@.len() + 1)
                &&& v.running
                &&& !v.failed
                &&& v.transcript == transcript
            }),
        },
{
    let mut i: usize = 0;
    let mut found = false;
    while !found && i < views.len()
        invariant
            i <= views.len(),
            views@ == old(views)@,
            found ==> i < views.len() && views@[i as int].id@ == child@,
            forall|j: int| 0 <= j < i ==> (#[trigger] views@[j]).id@ != child@,
        decreases views.len() - i + if found { 0int } else { 1int },
    {
        if crate::text::str_eq(views[i].id.as_str(), child) {
            found = true;
        } else {
            i = i + 1;
        }
    }
    proof {
        lemma_view_of(views@, child@, i as int);
    }
    if found {
        let mut view = views.remove(i);
        view.running = true;
        view.failed = false;
        views.insert(i, view);
        proof {
            assert(views@ =~= old(views)@.update(
                i as int,
                SubagentView { running: true, failed: false, ..old(views)@[i as int] },
            ));
        }
    } else {
        let n = crate::numfmt::format_decimal(views.len() as u64 + 1);
        let label = crate::text::concat_str(label_prefix, n.as_str());
        views.push(
            SubagentView {
                id: child.to_owned(),
                parent: parent.to_owned(),
                label,
                running: true,
                failed: false,
                transcript,
            },
        );
        assert(views@.take(old(views)@.len() as int) =~= old(views)@);
    }
}

/// What a select form reports to the plugin that opened it.
#[derive(Clone, Copy, Debug, PartialEq, Eq, Structural)]
pub enum OverlayAction {
    /// The highlighted option changed.
    Change,
    /// An option was chosen.
    Submit,
    /// The form was dismissed.
    Cancel,
    /// The highlighted option is to be deleted.
    Delete,
}

/// A form event: the form, what happened, and the option value it concerns.
pub struct OverlayEvent {
    pub id: String,
    pub action: OverlayAction,
    pub value: String,
}

/// How a key changes a select form.
pub enum SelectStep {
    /// Nothing happens.
    Keep,
    /// The search query becomes this text.
    Search(Seq<char>),
    /// The form closes, reporting the option at this index.
    Close(OverlayAction, int),
    /// The highlight moves to this option index.
    Move(int),
}

/// The query a key makes of a searchable form's query, if it edits it:
/// Ctrl+U clears it, a printable character (plain or shifted) is appended
/// while it is shorter than 256 characters, Backspace removes the last one.
pub open spec fn query_edit(query: Seq<char>, key: KeyEvent) -> Option<Seq<char>> {
    match key.code {
        KeyCode::Char(ch) => if ch == 'u' && key.modifiers == CONTROL {
            Some(Seq::empty())
        } else if (key.modifiers == 0 || key.modifiers == SHIFT) && !is_control(ch) {
            Some(if query.len() < 256 { query.push(ch) } else { query })
        } else {
            None
        },
        KeyCode::Backspace => if key.modifiers == 0 {
            Some(if query.len() > 0 { query.drop_last() } else { query })
        } else {
            None
        },
        _ => None,
    }
}

/// The position of `sel` among the shown options, the first when hidden.
pub open spec fn shown_position(vis: Seq<usize>, sel: usize) -> int
    decreases vis.len(),
{
    if vis.len() == 0 || vis[0] == sel {
        0
    } else if vis.drop_first().contains(sel) {
        1 + shown_position(vis.drop_first(), sel)
    } else {
        0
    }
}

/// Where the highlight goes on an arrow, Home or End key, over the shown
/// options; `None` for any other key.
pub open spec fn moved_to(vis: Seq<usize>, sel: usize, code: KeyCode) -> Option<int> {
    let pos = shown_position(vis, sel);
    match code {
        KeyCode::Up => Some(vis[if pos > 0 { pos - 1 } else { 0 }] as int),
        KeyCode::Down => Some(vis[if pos + 1 < vis.len() { pos + 1 } else { vis.len() - 1 }] as int),
        KeyCode::Home => Some(vis[0] as int),
        KeyCode::End => Some(vis[vis.len() - 1] as int),
        _ => None,
    }
}

/// How `key` changes the select form `s`.
pub open spec fn select_step(s: SelectOverlay, key: KeyEvent) -> SelectStep {
    let vis = s.spec_visible();
    if s.searchable && query_edit(s.query@, key) is Some {
        SelectStep::Search(query_edit(s.query@, key)->0)
    } else if key.modifiers != 0 {
        SelectStep::Keep
    } else if key.code is Delete || key.code is Backspace {
        if vis.len() > 0 && s.sel < s.options.len() && s.options@[s.sel as int].deletable
            && !s.options@[s.sel as int].disabled {
            SelectStep::Close(OverlayAction::Delete, s.sel as int)
        } else {
            SelectStep::Keep
        }
    } else if key.code is Enter {
        if vis.len() == 0 || s.options@[s.sel as int].disabled {
            SelectStep::Keep
        } else {
            SelectStep::Close(OverlayAction::Submit, s.sel as int)
        }
    } else if key.code is Esc {
        SelectStep::Close(OverlayAction::Cancel, s.sel as int)
    } else if vis.len() == 0 {
        SelectStep::Keep
    } else {
        match moved_to(vis, s.sel, key.code) {
            Some(i) => if i == s.sel {
                SelectStep::Keep
            } else {
                SelectStep::Move(i)
            },
            None => SelectStep::Keep,
        }
    }
}

/// Whether a key reads the highlighted option of a form: Esc, and Enter
/// while some option is shown (outside a search edit, without modifiers).
pub open spec fn reads_highlight(s: SelectOverlay, key: KeyEvent) -> bool {
    &&& !(s.searchable && query_edit(s.query@, key) is Some)
    &&& key.modifiers == 0
    &&& (key.code is Esc || (key.code is Enter && s.spec_visible().len() > 0))
}

/// The highlight a search leaves: kept while its option is shown (or
/// nothing is), else the first shown option.
pub open spec fn search_sel(s: SelectOverlay, query: Seq<char>) -> usize {
    let vis = visible_of(s.options@, s.searchable, query);
    if vis.contains(s.sel) || vis.len() == 0 {
        s.sel
    } else {
        vis[0]
    }
}

proof fn lemma_shown_position(vis: Seq<usize>, sel: usize)
    ensures
        vis.len() > 0 ==> 0 <= shown_position(vis, sel) < vis.len(),
        vis.contains(sel) ==> vis[shown_position(vis, sel)] == sel,
    decreases vis.len(),
{
    if vis.len() > 0 && vis[0] != sel && vis.drop_first().contains(sel) {
        lemma_shown_position(vis.drop_first(), sel);
    }
    if vis.contains(sel) && vis.len() > 0 && vis[0] != sel {
        let i = choose|i: int| 0 <= i < vis.len() && vis[i] == sel;
        assert(vis.drop_first()[i - 1] == sel);
    }
}

/// Where `sel` stands among the shown options (the first when hidden).
fn position_in(vis: &Vec<usize>, sel: usize) -> (r: usize)
    requires
        vis.len() > 0,
    ensures
        r as int == shown_position(vis@, sel),
        r < vis.len(),
{
    proof {
        lemma_shown_position(vis@, sel);
    }
    let mut i: usize = 0;
    while i < vis.len() && vis[i] != sel
        invariant
            i <= vis.len(),
            forall|j: int| 0 <= j < i ==> vis@[j] != sel,
        decreases vis.len() - i,
    {
        i = i + 1;
    }
    if i == vis.len() {
        proof {
            assert(!vis@.contains(sel)) by {
                if vis@.contains(sel) {
                    let j = choose|j: int| 0 <= j < vis@.len() && vis@[j] == sel;
                    assert(vis@[j] != sel);
                }
            }
            lemma_not_shown(vis@, sel);
        }
        0
    } else {
        proof {
            lemma_position_found(vis@, sel, i as int);
        }
        i
    }
}

proof fn lemma_not_shown(vis: Seq<usize>, sel: usize)
    requires
        !vis.contains(sel),
    ensures
        shown_position(vis, sel) == 0,
{
    if vis.len() > 0 {
        assert(vis[0] != sel) by {
            if vis[0] == sel {
                assert(vis.contains(sel));
            }
        }
        assert(!vis.drop_first().contains(sel)) by {
            if vis.drop_first().contains(sel) {
                let j = choose|j: int| 0 <= j < vis.drop_first().len() && vis.drop_first()[j] == sel;
                assert(vis[j + 1] == sel);
            }
        }
    }
}

proof fn lemma_position_found(vis: Seq<usize>, sel: usize, i: int)
    requires
        0 <= i < vis.len(),
        vis[i] == sel,
        forall|j: int| 0 <= j < i ==> vis[j] != sel,
    ensures
        shown_position(vis, sel) == i,
    decreases i,
{
    if i > 0 {
        assert(vis.drop_first()[i - 1] == sel);
        assert(vis.drop_first().contains(sel));
        assert forall|j: int| 0 <= j < i - 1 implies vis.drop_first()[j] != sel by {
            assert(vis.drop_first()[j] == vis[j + 1]);
        }
        lemma_position_found(vis.drop_first(), sel, i - 1);
    }
}

fn edit_query(query: &String, key: KeyEvent) -> (r: Option<String>)
    ensures
        match r {
            Some(q) => query_edit(query@, key) == Some(q@),
            None => query_edit(query@, key) is None,
        },
{
    match key.code {
        KeyCode::Char(ch) => {
            if ch == 'u' && key.modifiers == CONTROL {
                Some(String::new())
            } else if (key.modifiers == 0 || key.modifiers == SHIFT) && !char_is_control(ch) {
                let mut v = chars_of(query.as_str());
                if v.len() < 256 {
                    v.push(ch);
                }
                Some(string_from(v.as_slice()))
            } else {
                None
            }
        },
        KeyCode::Backspace => {
            if key.modifiers == 0 {
                let mut v = chars_of(query.as_str());
                if v.len() > 0 {
                    v.pop();
                }
                Some(string_from(v.as_slice()))
            } else {
                None
            }
        },
        _ => None,
    }
}

/// A key pressed on an open select form: the form as it stands afterwards
/// (`None` once it closed) and the event reported to the plugin, if any.
/// Typing edits the search of a searchable form; Delete (or Backspace
/// outside a search) deletes a deletable option, Enter submits, Esc
/// cancels, and the arrows, Home and End move over the shown options.
pub fn select_key(select: SelectOverlay, key: KeyEvent) -> (r: (Option<SelectOverlay>, Option<OverlayEvent>))
    requires
        reads_highlight(select, key) ==> select.sel < select.options.len(),
    ensures
        match select_step(select, key) {
            SelectStep::Keep => r.0 == Some(select) && r.1 is None,
            SelectStep::Search(q) => {
                &&& r.1 is None
                &&& r.0 matches Some(o)
                &&& o.query@ == q
                &&& o.sel == search_sel(select, q)
                &&& o.options == select.options
                &&& o.id == select.id
                &&& o.title == select.title
                &&& o.searchable == select.searchable
                &&& o.sel < select.options.len() ==> o.value@ == select.options@[o.sel as int].value@
                &&& o.sel >= select.options.len() ==> o.value == select.value
            },
            SelectStep::Close(action, i) => {
                &&& r.0 is None
                &&& r.1 matches Some(e)
                &&& e.id@ == select.id@
                &&& e.action == action
                &&& e.value@ == select.options@[i].value@
            },
            SelectStep::Move(i) => {
                &&& r.0 matches Some(o)
                &&& o.sel == i
                &&& o.value@ == select.options@[i].value@
                &&& o.options == select.options
                &&& o.id == select.id
                &&& o.title == select.title
                &&& o.query == select.query
                &&& o.searchable == select.searchable
                &&& r.1 matches Some(e)
                &&& e.id@ == select.id@
                &&& e.action == OverlayAction::Change
                &&& e.value@ == select.options@[i].value@
            },
        },
{
    let mut select = select;
    let ghost original = select;
    if select.searchable {
        if let Some(q) = edit_query(&select.query, key) {
            select.query = q;
            let ghost edited = select;
            select.reconcile_search();
            proof {
                assert(edited.spec_visible() == visible_of(original.options@, original.searchable, edited.query@));
            }
            return (Some(select), None);
        }
    }
    if key.modifiers != 0 {
        return (Some(select), None);
    }
    let vis = select.visible_indices();
    match key.code {
        KeyCode::Delete | KeyCode::Backspace => {
            if vis.len() > 0 && select.sel < select.options.len() && select.options[select.sel].deletable
                && !select.options[select.sel].disabled {
                let value = select.options[select.sel].value.clone();
                return (None, Some(OverlayEvent { id: select.id, action: OverlayAction::Delete, value }));
            }
            return (Some(select), None);
        },
        KeyCode::Enter => {
            if vis.len() == 0 || select.options[select.sel].disabled {
                return (Some(select), None);
            }
            let value = select.options[select.sel].value.clone();
            return (None, Some(OverlayEvent { id: select.id, action: OverlayAction::Submit, value }));
        },
        KeyCode::Esc => {
            let value = select.options[select.sel].value.clone();
            return (None, Some(OverlayEvent { id: select.id, action: OverlayAction::Cancel, value }));
        },
        _ => {},
    }
    if vis.len() == 0 {
        return (Some(select), None);
    }
    let pos = position_in(&vis, select.sel);
    let last = vis.len() - 1;
    let target = match key.code {
        KeyCode::Up => vis[if pos > 0 {
            pos - 1
        } else {
            0
        }],
        KeyCode::Down => vis[if pos < last {
            pos + 1
        } else {
            last
        }],
        KeyCode::Home => vis[0],
        KeyCode::End => vis[last],
        _ => {
            return (Some(select), None);
        },
    };
    if target == select.sel {
        return (Some(select), None);
    }
    proof {
        lemma_visible_in_range(select.options@, select.searchable, select.query@);
        assert(vis@.contains(target));
    }
    select.sel = target;
    select.value = select.options[target].value.clone();
    let value = select.value.clone();
    let id = select.id.clone();
    (Some(select), Some(OverlayEvent { id, action: OverlayAction::Change, value }))
}

/// Every shown index names an option.
proof fn lemma_visible_in_range(options: Seq<SelectOption>, searchable: bool, query: Seq<char>)
    ensures
        forall|k: int| 0 <= k < visible_of(options, searchable, query).len()
            ==> #[trigger] visible_of(options, searchable, query)[k] < options.len(),
    decreases options.len(),
{
    if options.len() > 0 {
        lemma_visible_in_range(options.drop_last(), searchable, query);
        let rest = visible_of(options.drop_last(), searchable, query);
        let all = visible_of(options, searchable, query);
        assert forall|k: int| 0 <= k < all.len() implies #[trigger] all[k] < options.len() by {
            if k < rest.len() {
                assert(all[k] == rest[k]);
            }
        }
    }
}

/// Where a navigation key moves a picker's highlight over `len` rows
/// (`page` rows a screen): the arrows wrap, the page keys stop at the ends,
/// Home and End jump there; `None` for a key that does not navigate.
pub open spec fn picker_moved(sel: int, len: int, page: int, code: KeyCode) -> Option<int> {
    let n = if len > 1 { len } else { 1 };
    let p = if page > 1 { page } else { 1 };
    match code {
        KeyCode::Up => Some(if sel == 0 { n - 1 } else { sel - 1 }),
        KeyCode::Down => Some((sel + 1) % n),
        KeyCode::PageUp => Some(if sel > p { sel - p } else { 0 }),
        KeyCode::PageDown => Some(if sel + p < n - 1 { sel + p } else { n - 1 }),
        KeyCode::Home => Some(0),
        KeyCode::End => Some(n - 1),
        _ => None,
    }
}

/// Up moves the highlight one row up and wraps from the first row to the
/// last; Down moves it one row down and wraps from the last to the first;
/// so Up then Down, and Down then Up, come back to any row.
pub proof fn law_arrows_step_one_row(sel: int, len: int, page: int)
    requires
        0 <= sel < len,
    ensures
        sel > 0 ==> picker_moved(sel, len, page, KeyCode::Up) == Some(sel - 1),
        sel == 0 ==> picker_moved(sel, len, page, KeyCode::Up) == Some(len - 1),
        sel + 1 < len ==> picker_moved(sel, len, page, KeyCode::Down) == Some(sel + 1),
        sel + 1 == len ==> picker_moved(sel, len, page, KeyCode::Down) == Some(0int),
        picker_moved(picker_moved(sel, len, page, KeyCode::Up)->0, len, page, KeyCode::Down) == Some(sel),
        picker_moved(picker_moved(sel, len, page, KeyCode::Down)->0, len, page, KeyCode::Up) == Some(sel),
{
    if len > 1 {
        if sel + 1 < len {
            assert((sel + 1) % len == sel + 1) by (nonlinear_arith)
                requires 0 <= sel + 1 < len;
        } else {
            assert((sel + 1) % len == 0) by (nonlinear_arith)
                requires sel + 1 == len, len > 0;
        }
        let up = if sel == 0 { len - 1 } else { sel - 1 };
        if up + 1 < len {
            assert((up + 1) % len == up + 1) by (nonlinear_arith)
                requires 0 <= up + 1 < len;
        } else {
            assert((up + 1) % len == 0) by (nonlinear_arith)
                requires up + 1 == len, len > 0;
        }
    } else {
        assert((sel + 1) % 1 == 0) by (nonlinear_arith);
    }
}

/// Up on a picker whose highlight is below the first row moves it to the
/// row above, keeping the list; on the first row it wraps to the last.
pub proof fn law_up_moves_the_highlight_up(picker_sel: usize, len: usize, page: usize)
    requires
        picker_sel > 0,
    ensures
        picker_moved(picker_sel as int, len as int, page as int, KeyCode::Up) == Some(picker_sel - 1),
{
}

/// Home and End jump to the first and last rows; the page keys move by a
/// page (at least one row) and stop at the ends instead of wrapping; keys
/// that do not navigate leave the highlight alone.
pub proof fn law_page_keys_stop_at_the_ends(sel: int, len: int, page: int)
    requires
        0 <= sel < len,
        page >= 1,
    ensures
        picker_moved(sel, len, page, KeyCode::Home) == Some(0int),
        picker_moved(sel, len, page, KeyCode::End) == Some(len - 1),
        sel >= page ==> picker_moved(sel, len, page, KeyCode::PageUp) == Some(sel - page),
        sel < page ==> picker_moved(sel, len, page, KeyCode::PageUp) == Some(0int),
        sel + page < len - 1 ==> picker_moved(sel, len, page, KeyCode::PageDown) == Some(sel + page),
        sel + page >= len - 1 ==> picker_moved(sel, len, page, KeyCode::PageDown) == Some(len - 1),
        picker_moved(sel, len, page, KeyCode::Enter) is None,
        picker_moved(sel, len, page, KeyCode::Esc) is None,
{
}

/// What a key does to an open picker.
pub enum PickerOutcome {
    /// The picker stays open; `preview` says the theme under a moved
    /// highlight is to be previewed.
    Open { picker: Picker, preview: bool },
    /// The picker closed without a choice.
    Closed,
    /// The picker closed on a row: the list it was and the row chosen.
    Chosen { kind: PickerKind, item: PickerItem },
}

/// A key pressed on an open picker: Esc closes it, the navigation keys move
/// the highlight, Enter chooses the highlighted row (closing without a
/// choice when there is none), and any other key leaves it as it is. The
/// theme list previews the theme under a moved highlight.
pub fn picker_key(picker: Picker, code: KeyCode, page_rows: usize) -> (r: PickerOutcome)
    requires
        picker.sel < usize::MAX,
    ensures
        match code {
            KeyCode::Esc => r is Closed,
            KeyCode::Enter => if picker.sel < picker.items.len() {
                r == PickerOutcome::Chosen { kind: picker.kind, item: picker.items@[picker.sel as int] }
            } else {
                r is Closed
            },
            _ => match picker_moved(picker.sel as int, picker.items.len() as int, page_rows as int, code) {
                Some(sel) => r matches PickerOutcome::Open { picker: p, preview } && p.sel == sel
                    && p.items == picker.items && p.kind == picker.kind && p.title == picker.title
                    && p.offset == picker.offset && preview == (picker.kind == PickerKind::Theme
                    && sel != picker.sel),
                None => r == PickerOutcome::Open { picker, preview: false },
            },
        },
{
    let mut picker = picker;
    let n: usize = if picker.items.len() > 1 {
        picker.items.len()
    } else {
        1
    };
    let page: usize = if page_rows > 1 {
        page_rows
    } else {
        1
    };
    let before = picker.sel;
    let moved: usize = match code {
        KeyCode::Esc => {
            return PickerOutcome::Closed;
        },
        KeyCode::Enter => {
            if picker.sel < picker.items.len() {
                let kind = picker.kind;
                let item = picker.items.remove(picker.sel);
                return PickerOutcome::Chosen { kind, item };
            }
            return PickerOutcome::Closed;
        },
        KeyCode::Up => if picker.sel == 0 {
            n - 1
        } else {
            picker.sel - 1
        },
        KeyCode::Down => (picker.sel + 1) % n,
        KeyCode::PageUp => if picker.sel > page {
            picker.sel - page
        } else {
            0
        },
        KeyCode::PageDown => if picker.sel < n - 1 && n - 1 - picker.sel > page {
            picker.sel + page
        } else {
            n - 1
        },
        KeyCode::Home => 0,
        KeyCode::End => n - 1,
        _ => {
            return PickerOutcome::Open { picker, preview: false };
        },
    };
    picker.sel = moved;
    let preview = picker.kind == PickerKind::Theme && moved != before;
    PickerOutcome::Open { picker, preview }
}

/// What choosing a dynamic plugin row does.
#[derive(Debug, PartialEq, Eq)]
pub enum PluginChoice {
    /// Open the approval the plugin waits on.
    Review(String),
    /// The plugin is already starting: only say so.
    AlreadyStarting,
    /// Ask the host to enable (`true`) or stop (`false`) the plugin.
    SetEnabled(bool),
}

/// The action for a chosen dynamic plugin: its pending approval first;
/// nothing while it starts; otherwise stop a running or waiting plugin and
/// restore any other.
pub fn plugin_choice(status: &str, approval_request: Option<&str>) -> (r: PluginChoice)
    ensures
        match approval_request {
            Some(id) => r matches PluginChoice::Review(s) && s@ == id@,
            None => if status@ == "starting-host"@ || status@ == "client-pending"@ {
                r is AlreadyStarting
            } else {
                r == PluginChoice::SetEnabled(!(status@ == "running"@ || status@ == "waiting"@))
            },
        },
{
    match approval_request {
        Some(id) => PluginChoice::Review(id.to_owned()),
        None => {
            if crate::text::str_eq(status, "starting-host") || crate::text::str_eq(status, "client-pending") {
                PluginChoice::AlreadyStarting
            } else {
                let active = crate::text::str_eq(status, "running") || crate::text::str_eq(status, "waiting");
                PluginChoice::SetEnabled(!active)
            }
        },
    }
}

} // verus!
