//! The `/` completion menu: the commands a partly typed `/name` can be, or
//! the arguments a `/name arg` can take, in the order the menu lists them.
use vstd::prelude::*;
use crate::options::{ArgumentSources, argument_rows, builtin_argument_options, rows_view};
use crate::picker::SlashEntry;
use crate::text::{
    ascii_lower_seq, ascii_lowercase, chars_of, concat_str, has_prefix, is_white, char_is_white, starts_with,
    str_eq, string_from_range, trim_start, trim_start_index,
};

verus! {

/// A builtin command as the menu shows it (description in the UI language).
pub struct BuiltinCommand {
    pub name: String,
    pub usage: String,
    pub desc: String,
}

/// One value a plugin command's input offers.
pub struct PluginCommandOption {
    pub disabled: bool,
    pub value: String,
    pub label: Option<String>,
    pub description: Option<String>,
}

/// The input a plugin command takes.
pub struct PluginCommandInput {
    pub hint: String,
    pub options: Vec<PluginCommandOption>,
}

/// A command a client plugin registers.
pub struct PluginCommand {
    pub name: String,
    pub description: String,
    pub input: Option<PluginCommandInput>,
}

/// A command the host offers as a skill.
pub struct SkillInfo {
    pub name: String,
    pub description: String,
    pub input_hint: Option<String>,
    /// The skill is run by the client rather than sent as a prompt.
    pub client_command: bool,
}

/// Everything the menu is made from.
pub struct MenuSources {
    pub builtins: Vec<BuiltinCommand>,
    pub plugin_commands: Vec<PluginCommand>,
    pub skills: Vec<SkillInfo>,
    /// The theme menu's section titles: the mode toggle's and the palettes'.
    pub theme_sections: (String, String),
    pub arguments: ArgumentSources,
}

/// A menu entry's content.
pub struct EntryView {
    pub disabled: bool,
    pub name: Seq<char>,
    pub usage: Seq<char>,
    pub desc: Seq<char>,
    pub skill: bool,
    pub plugin: bool,
    pub section: Option<Seq<char>>,
    pub completion: Option<Seq<char>>,
}

pub open spec fn opt(s: Option<String>) -> Option<Seq<char>> {
    match s {
        Some(t) => Some(t@),
        None => None,
    }
}

pub open spec fn entry_view(e: SlashEntry) -> EntryView {
    EntryView {
        disabled: e.disabled,
        name: e.name@,
        usage: e.usage@,
        desc: e.desc@,
        skill: e.skill,
        plugin: e.plugin,
        section: opt(e.section),
        completion: opt(e.completion),
    }
}

pub open spec fn entry_views(v: Seq<SlashEntry>) -> Seq<EntryView> {
    v.map_values(|e: SlashEntry| entry_view(e))
}

/// `a` sorts strictly before `b` (code point order, as `str` compares).
pub open spec fn lex_lt(a: Seq<char>, b: Seq<char>) -> bool
    decreases a.len(),
{
    if a.len() == 0 {
        b.len() > 0
    } else if b.len() == 0 {
        false
    } else if a[0] != b[0] {
        (a[0] as u32) < (b[0] as u32)
    } else {
        lex_lt(a.drop_first(), b.drop_first())
    }
}

/// Where an entry named `name` goes in a name-sorted list: after every
/// entry whose name does not sort after it.
pub open spec fn slot_for(sorted: Seq<EntryView>, name: Seq<char>) -> int
    decreases sorted.len(),
{
    if sorted.len() == 0 {
        0
    } else if lex_lt(name, sorted.last().name) {
        slot_for(sorted.drop_last(), name)
    } else {
        sorted.len() as int
    }
}

/// Entries sorted by name, entries with equal names in their given order.
pub open spec fn sort_by_name(entries: Seq<EntryView>) -> Seq<EntryView>
    decreases entries.len(),
{
    if entries.len() == 0 {
        entries
    } else {
        let sorted = sort_by_name(entries.drop_last());
        sorted.insert(slot_for(sorted, entries.last().name), entries.last())
    }
}

/// Whether some builtin command is called `name`.
pub open spec fn is_builtin(builtins: Seq<BuiltinCommand>, name: Seq<char>) -> bool {
    exists|i: int| 0 <= i < builtins.len() && #[trigger] builtins[i].name@ == name
}

/// Whether some plugin command is called `name`.
pub open spec fn plugin_active(plugins: Seq<PluginCommand>, name: Seq<char>) -> bool {
    exists|i: int| 0 <= i < plugins.len() && #[trigger] plugins[i].name@ == name
}

/// The builtin commands whose name starts with `prefix`, in table order.
pub open spec fn builtin_entries(builtins: Seq<BuiltinCommand>, prefix: Seq<char>) -> Seq<EntryView>
    decreases builtins.len(),
{
    if builtins.len() == 0 {
        Seq::empty()
    } else {
        let rest = builtin_entries(builtins.drop_last(), prefix);
        let c = builtins.last();
        if has_prefix(c.name@, prefix) {
            rest.push(EntryView {
                disabled: false,
                name: c.name@,
                usage: c.usage@,
                desc: c.desc@,
                skill: false,
                plugin: false,
                section: None,
                completion: None,
            })
        } else {
            rest
        }
    }
}

/// The menu entry of a plugin command.
pub open spec fn plugin_entry(c: PluginCommand) -> EntryView {
    EntryView {
        disabled: false,
        name: c.name@,
        usage: match c.input {
            Some(input) => "/"@ + c.name@ + " ["@ + input.hint@ + "]"@,
            None => "/"@ + c.name@,
        },
        desc: c.description@,
        skill: false,
        plugin: true,
        section: None,
        completion: None,
    }
}

/// The plugin commands matching `prefix` that no builtin shadows, in
/// registration order.
pub open spec fn plugin_entries(plugins: Seq<PluginCommand>, builtins: Seq<BuiltinCommand>, prefix: Seq<char>) -> Seq<EntryView>
    decreases plugins.len(),
{
    if plugins.len() == 0 {
        Seq::empty()
    } else {
        let rest = plugin_entries(plugins.drop_last(), builtins, prefix);
        let c = plugins.last();
        if has_prefix(c.name@, prefix) && !is_builtin(builtins, c.name@) {
            rest.push(plugin_entry(c))
        } else {
            rest
        }
    }
}

/// The menu entry of a host skill: a client command counts as a plugin
/// command, any other as a skill.
pub open spec fn skill_entry(s: SkillInfo) -> EntryView {
    EntryView {
        disabled: false,
        name: s.name@,
        usage: match s.input_hint {
            Some(h) => "/"@ + s.name@ + " "@ + h@,
            None => "/"@ + s.name@,
        },
        desc: s.description@,
        skill: !s.client_command,
        plugin: s.client_command,
        section: None,
        completion: None,
    }
}

/// The skills matching `prefix` that neither a builtin nor an active plugin
/// command shadows, `logout` (any case) excepted, in host order.
pub open spec fn skill_entries(
    skills: Seq<SkillInfo>,
    builtins: Seq<BuiltinCommand>,
    plugins: Seq<PluginCommand>,
    prefix: Seq<char>,
) -> Seq<EntryView>
    decreases skills.len(),
{
    if skills.len() == 0 {
        Seq::empty()
    } else {
        let rest = skill_entries(skills.drop_last(), builtins, plugins, prefix);
        let s = skills.last();
        if ascii_lower_seq(s.name@) != "logout"@ && has_prefix(s.name@, prefix) && !is_builtin(builtins, s.name@)
            && !plugin_active(plugins, s.name@) {
            rest.push(skill_entry(s))
        } else {
            rest
        }
    }
}

/// The entries named exactly `name`, in order.
pub open spec fn named(entries: Seq<EntryView>, name: Seq<char>) -> Seq<EntryView>
    decreases entries.len(),
{
    if entries.len() == 0 {
        entries
    } else if entries.last().name == name {
        named(entries.drop_last(), name).push(entries.last())
    } else {
        named(entries.drop_last(), name)
    }
}

/// The entries not named `name`, in order.
pub open spec fn not_named(entries: Seq<EntryView>, name: Seq<char>) -> Seq<EntryView>
    decreases entries.len(),
{
    if entries.len() == 0 {
        entries
    } else if entries.last().name != name {
        not_named(entries.drop_last(), name).push(entries.last())
    } else {
        not_named(entries.drop_last(), name)
    }
}

/// The commands a typed `/prefix` can complete to: builtins in table order,
/// then plugin commands and then skills, each group by name — and an exact
/// match ahead of the longer names sharing its prefix.
pub open spec fn command_matches(src: MenuSources, prefix: Seq<char>) -> Seq<EntryView> {
    let all = builtin_entries(src.builtins@, prefix) + sort_by_name(
        plugin_entries(src.plugin_commands@, src.builtins@, prefix),
    ) + sort_by_name(skill_entries(src.skills@, src.builtins@, src.plugin_commands@, prefix));
    named(all, prefix) + not_named(all, prefix)
}

/// The first plugin command called `name`.
pub open spec fn plugin_named(plugins: Seq<PluginCommand>, name: Seq<char>) -> Option<int>
    decreases plugins.len(),
{
    if plugins.len() == 0 {
        None
    } else if plugins[0].name@ == name {
        Some(0)
    } else {
        match plugin_named(plugins.drop_first(), name) {
            Some(i) => Some(i + 1),
            None => None,
        }
    }
}

/// The options of a plugin command's input whose value starts with
/// `prefix`, as argument entries of `/name`.
pub open spec fn option_entries(options: Seq<PluginCommandOption>, name: Seq<char>, prefix: Seq<char>) -> Seq<EntryView>
    decreases options.len(),
{
    if options.len() == 0 {
        Seq::empty()
    } else {
        let rest = option_entries(options.drop_last(), name, prefix);
        let o = options.last();
        if has_prefix(o.value@, prefix) {
            rest.push(EntryView {
                disabled: o.disabled,
                name,
                usage: match o.label {
                    Some(l) => l@,
                    None => o.value@,
                },
                desc: match o.description {
                    Some(d) => d@,
                    None => Seq::empty(),
                },
                skill: false,
                plugin: true,
                section: None,
                completion: Some("/"@ + name + " "@ + o.value@),
            })
        } else {
            rest
        }
    }
}

/// The rows of a builtin argument menu whose value starts with `prefix`, as
/// argument entries of `/name` (the theme menu split into its toggle and
/// palette sections).
pub open spec fn row_entries(
    rows: Seq<(Seq<char>, Seq<char>, Seq<char>)>,
    name: Seq<char>,
    prefix: Seq<char>,
    sections: (Seq<char>, Seq<char>),
) -> Seq<EntryView>
    decreases rows.len(),
{
    if rows.len() == 0 {
        Seq::empty()
    } else {
        let rest = row_entries(rows.drop_last(), name, prefix, sections);
        let (value, label, desc) = rows.last();
        if has_prefix(value, prefix) {
            rest.push(EntryView {
                disabled: false,
                name,
                usage: label,
                desc,
                skill: false,
                plugin: false,
                section: if name == "theme"@ {
                    Some(if value == "toggle"@ { sections.0 } else { sections.1 })
                } else {
                    None
                },
                completion: Some("/"@ + name + " "@ + value),
            })
        } else {
            rest
        }
    }
}

/// The argument candidates of `/name arg`: none once the argument holds a
/// space; a plugin command's own options for a plugin command no builtin
/// shadows; the builtin argument menu otherwise.
pub open spec fn argument_matches(name: Seq<char>, arg: Seq<char>, src: MenuSources) -> Seq<EntryView> {
    let prefix = trim_start(arg);
    if exists|i: int| 0 <= i < prefix.len() && is_white(#[trigger] prefix[i]) {
        Seq::empty()
    } else if !is_builtin(src.builtins@, name) && plugin_named(src.plugin_commands@, name) is Some {
        let c = src.plugin_commands@[plugin_named(src.plugin_commands@, name)->0];
        match c.input {
            Some(input) => option_entries(input.options@, name, prefix),
            None => Seq::empty(),
        }
    } else {
        row_entries(
            argument_rows(name, src.arguments),
            name,
            prefix,
            (src.theme_sections.0@, src.theme_sections.1@),
        )
    }
}

/// The menu for the first line of the composer: nothing unless it starts
/// with `/`; the argument candidates once the command name is followed by
/// a space; the matching commands otherwise.
pub open spec fn menu_entries(first: Seq<char>, src: MenuSources) -> Seq<EntryView> {
    if first.len() == 0 || first[0] != '/' {
        Seq::empty()
    } else {
        let rest = first.drop_first();
        match crate::text::first_index_of(rest, ' ') {
            Some(k) => argument_matches(rest.take(k), rest.skip(k + 1), src),
            None => command_matches(src, rest),
        }
    }
}

proof fn lemma_lex_step(a: Seq<char>, b: Seq<char>, i: int)
    requires
        0 <= i <= a.len(),
        i <= b.len(),
        a.take(i) == b.take(i),
    ensures
        lex_lt(a, b) == lex_lt(a.skip(i), b.skip(i)),
    decreases i,
{
    if i > 0 {
        assert(a[0] == a.take(i)[0]);
        assert(b[0] == b.take(i)[0]);
        assert(a.drop_first().take(i - 1) =~= a.take(i).drop_first());
        assert(b.drop_first().take(i - 1) =~= b.take(i).drop_first());
        lemma_lex_step(a.drop_first(), b.drop_first(), i - 1);
        assert(a.drop_first().skip(i - 1) =~= a.skip(i));
        assert(b.drop_first().skip(i - 1) =~= b.skip(i));
    } else {
        assert(a.skip(0) =~= a);
        assert(b.skip(0) =~= b);
    }
}

/// Whether `a` sorts strictly before `b`.
fn chars_lt(a: &Vec<char>, b: &Vec<char>) -> (r: bool)
    ensures
        r == lex_lt(a@, b@),
{
    let mut i: usize = 0;
    while i < a.len() && i < b.len() && a[i] == b[i]
        invariant
            i <= a.len(),
            i <= b.len(),
            a@.take(i as int) == b@.take(i as int),
        decreases a.len() - i,
    {
        assert(a@.take(i + 1) =~= a@.take(i as int).push(a@[i as int]));
        assert(b@.take(i + 1) =~= b@.take(i as int).push(b@[i as int]));
        i = i + 1;
    }
    proof {
        lemma_lex_step(a@, b@, i as int);
        let x = a@.skip(i as int);
        let y = b@.skip(i as int);
        if x.len() > 0 && y.len() > 0 {
            assert(x[0] == a@[i as int]);
            assert(y[0] == b@[i as int]);
        }
    }
    if i == a.len() {
        i < b.len()
    } else if i == b.len() {
        false
    } else {
        (a[i] as u32) < (b[i] as u32)
    }
}

/// Put `entry` into a name-sorted list after every entry whose name does not
/// sort after its own.
fn insert_by_name(sorted: &mut Vec<SlashEntry>, entry: SlashEntry)
    ensures
        entry_views(final(sorted)@) == entry_views(old(sorted)@).insert(
            slot_for(entry_views(old(sorted)@), entry.name@),
            entry_view(entry),
        ),
{
    let ghost views = entry_views(sorted@);
    let name = chars_of(entry.name.as_str());
    let mut k: usize = sorted.len();
    assert(views.take(k as int) =~= views);
    while k > 0 && chars_lt(&name, &chars_of(sorted[k - 1].name.as_str()))
        invariant
            k <= sorted.len(),
            sorted@ == old(sorted)@,
            views == entry_views(sorted@),
            name@ == entry.name@,
            slot_for(views, entry.name@) == slot_for(views.take(k as int), entry.name@),
        decreases k,
    {
        proof {
            assert(views.take(k as int).last() == entry_view(sorted@[k - 1]));
            assert(views.take(k as int).drop_last() =~= views.take(k - 1));
        }
        k = k - 1;
    }
    proof {
        if k > 0 {
            assert(views.take(k as int).last() == entry_view(sorted@[k - 1]));
        }
        assert(slot_for(views.take(k as int), entry.name@) == k);
    }
    let ghost ev = entry_view(entry);
    sorted.insert(k, entry);
    assert(entry_views(sorted@) =~= views.insert(k as int, ev));
}

/// The stable split that puts the entries named exactly `prefix` first.
fn exact_first(entries: Vec<SlashEntry>, prefix: &Vec<char>) -> (r: Vec<SlashEntry>)
    ensures
        entry_views(r@) == named(entry_views(entries@), prefix@) + not_named(entry_views(entries@), prefix@),
{
    let ghost all = entry_views(entries@);
    let mut rest = entries;
    let mut exact: Vec<SlashEntry> = Vec::new();
    let mut other: Vec<SlashEntry> = Vec::new();
    let ghost mut i: int = 0;
    let mut stack = crate::acp::reversed(rest);
    while stack.len() > 0
        invariant
            0 <= i <= all.len(),
            entry_views(stack@) == all.skip(i).reverse(),
            entry_views(exact@) == named(all.take(i), prefix@),
            entry_views(other@) == not_named(all.take(i), prefix@),
        decreases stack.len(),
    {
        let ghost before = entry_views(stack@);
        let e = stack.pop().unwrap();
        proof {
            assert(all.skip(i).reverse().last() == all[i]);
            assert(before.drop_last() =~= entry_views(stack@));
            assert(entry_views(stack@) =~= all.skip(i + 1).reverse());
            assert(all.take(i + 1).drop_last() =~= all.take(i));
            assert(all.take(i + 1).last() == all[i]);
        }
        let ghost ev = entry_view(e);
        if crate::text::seq_eq(&chars_of(e.name.as_str()), prefix) {
            let ghost b = entry_views(exact@);
            exact.push(e);
            assert(entry_views(exact@) =~= b.push(ev));
        } else {
            let ghost b = entry_views(other@);
            other.push(e);
            assert(entry_views(other@) =~= b.push(ev));
        }
        proof {
            i = i + 1;
        }
    }
    proof {
        assert(all.take(i) =~= all);
    }
    let ghost head = entry_views(exact@);
    let ghost tail = entry_views(other@);
    let mut out = exact;
    let mut rev_other = crate::acp::reversed(other);
    let ghost mut j: int = 0;
    while rev_other.len() > 0
        invariant
            0 <= j <= tail.len(),
            entry_views(rev_other@) == tail.skip(j).reverse(),
            entry_views(out@) == head + tail.take(j),
        decreases rev_other.len(),
    {
        let ghost before = entry_views(rev_other@);
        let e = rev_other.pop().unwrap();
        proof {
            assert(tail.skip(j).reverse().last() == tail[j]);
            assert(before.drop_last() =~= entry_views(rev_other@));
            assert(entry_views(rev_other@) =~= tail.skip(j + 1).reverse());
        }
        let ghost b = entry_views(out@);
        let ghost ev = entry_view(e);
        out.push(e);
        proof {
            assert(entry_views(out@) =~= b.push(ev));
            assert(tail.take(j + 1) =~= tail.take(j).push(tail[j]));
            j = j + 1;
        }
    }
    proof {
        assert(tail.take(j) =~= tail);
    }
    out
}

fn builtin_list(builtins: &Vec<BuiltinCommand>, prefix: &Vec<char>) -> (r: Vec<SlashEntry>)
    ensures
        entry_views(r@) == builtin_entries(builtins@, prefix@),
{
    let mut out: Vec<SlashEntry> = Vec::new();
    let mut i: usize = 0;
    while i < builtins.len()
        invariant
            i <= builtins.len(),
            entry_views(out@) == builtin_entries(builtins@.take(i as int), prefix@),
        decreases builtins.len() - i,
    {
        let c = &builtins[i];
        assert(builtins@.take(i + 1).drop_last() =~= builtins@.take(i as int));
        assert(builtins@.take(i + 1).last() == *c);
        if starts_with(&chars_of(c.name.as_str()), prefix) {
            let e = SlashEntry {
                disabled: false,
                name: c.name.clone(),
                usage: c.usage.clone(),
                desc: c.desc.clone(),
                skill: false,
                plugin: false,
                section: None,
                completion: None,
            };
            let ghost b = entry_views(out@);
            let ghost ev = entry_view(e);
            out.push(e);
            assert(entry_views(out@) =~= b.push(ev));
        }
        i = i + 1;
    }
    assert(builtins@.take(builtins.len() as int) =~= builtins@);
    out
}

fn builtin_named(builtins: &Vec<BuiltinCommand>, name: &str) -> (r: bool)
    ensures
        r == is_builtin(builtins@, name@),
{
    let mut i: usize = 0;
    while i < builtins.len()
        invariant
            i <= builtins.len(),
            forall|j: int| 0 <= j < i ==> #[trigger] builtins@[j].name@ != name@,
        decreases builtins.len() - i,
    {
        if str_eq(builtins[i].name.as_str(), name) {
            assert(builtins@[i as int].name@ == name@);
            return true;
        }
        i = i + 1;
    }
    false
}

fn plugin_index(plugins: &Vec<PluginCommand>, name: &str) -> (r: Option<usize>)
    ensures
        match r {
            Some(i) => plugin_named(plugins@, name@) == Some(i as int) && i < plugins.len(),
            None => plugin_named(plugins@, name@) is None,
        },
        r is Some <==> plugin_active(plugins@, name@),
{
    let mut i: usize = 0;
    assert(plugins@.skip(0) =~= plugins@);
    while i < plugins.len()
        invariant
            i <= plugins.len(),
            forall|j: int| 0 <= j < i ==> #[trigger] plugins@[j].name@ != name@,
            plugin_named(plugins@, name@) == match plugin_named(plugins@.skip(i as int), name@) {
                Some(k) => Some(k + i),
                None => None::<int>,
            },
        decreases plugins.len() - i,
    {
        let ghost rest = plugins@.skip(i as int);
        assert(rest[0] == plugins@[i as int]);
        assert(rest.drop_first() =~= plugins@.skip(i + 1));
        if str_eq(plugins[i].name.as_str(), name) {
            assert(plugins@[i as int].name@ == name@);
            return Some(i);
        }
        i = i + 1;
    }
    proof {
        assert(plugins@.skip(i as int) =~= Seq::<PluginCommand>::empty());
        if plugin_active(plugins@, name@) {
            let j = choose|j: int| 0 <= j < plugins@.len() && #[trigger] plugins@[j].name@ == name@;
            assert(plugins@[j].name@ != name@);
        }
    }
    None
}

fn plugin_list(plugins: &Vec<PluginCommand>, builtins: &Vec<BuiltinCommand>, prefix: &Vec<char>) -> (r: Vec<SlashEntry>)
    ensures
        entry_views(r@) == sort_by_name(plugin_entries(plugins@, builtins@, prefix@)),
{
    let mut out: Vec<SlashEntry> = Vec::new();
    let mut i: usize = 0;
    while i < plugins.len()
        invariant
            i <= plugins.len(),
            entry_views(out@) == sort_by_name(plugin_entries(plugins@.take(i as int), builtins@, prefix@)),
        decreases plugins.len() - i,
    {
        let c = &plugins[i];
        assert(plugins@.take(i + 1).drop_last() =~= plugins@.take(i as int));
        assert(plugins@.take(i + 1).last() == *c);
        if starts_with(&chars_of(c.name.as_str()), prefix) && !builtin_named(builtins, c.name.as_str()) {
            let usage = match &c.input {
                Some(input) => {
                    let a = concat_str("/", c.name.as_str());
                    let b = concat_str(a.as_str(), " [");
                    let d = concat_str(b.as_str(), input.hint.as_str());
                    concat_str(d.as_str(), "]")
                },
                None => concat_str("/", c.name.as_str()),
            };
            let e = SlashEntry {
                disabled: false,
                name: c.name.clone(),
                usage,
                desc: c.description.clone(),
                skill: false,
                plugin: true,
                section: None,
                completion: None,
            };
            assert(entry_view(e) == plugin_entry(*c));
            proof {
                let es = plugin_entries(plugins@.take(i as int), builtins@, prefix@);
                assert(plugin_entries(plugins@.take(i + 1), builtins@, prefix@) == es.push(plugin_entry(*c)));
                assert(es.push(plugin_entry(*c)).drop_last() =~= es);
                assert(es.push(plugin_entry(*c)).last() == plugin_entry(*c));
            }
            insert_by_name(&mut out, e);
        }
        i = i + 1;
    }
    assert(plugins@.take(plugins.len() as int) =~= plugins@);
    out
}

fn skill_list(
    skills: &Vec<SkillInfo>,
    builtins: &Vec<BuiltinCommand>,
    plugins: &Vec<PluginCommand>,
    prefix: &Vec<char>,
) -> (r: Vec<SlashEntry>)
    ensures
        entry_views(r@) == sort_by_name(skill_entries(skills@, builtins@, plugins@, prefix@)),
{
    let mut out: Vec<SlashEntry> = Vec::new();
    let mut i: usize = 0;
    while i < skills.len()
        invariant
            i <= skills.len(),
            entry_views(out@) == sort_by_name(skill_entries(skills@.take(i as int), builtins@, plugins@, prefix@)),
        decreases skills.len() - i,
    {
        let sk = &skills[i];
        assert(skills@.take(i + 1).drop_last() =~= skills@.take(i as int));
        assert(skills@.take(i + 1).last() == *sk);
        let lowered = ascii_lowercase(sk.name.as_str());
        if !str_eq(lowered.as_str(), "logout") && starts_with(&chars_of(sk.name.as_str()), prefix)
            && !builtin_named(builtins, sk.name.as_str()) && plugin_index(plugins, sk.name.as_str()).is_none() {
            let usage = match &sk.input_hint {
                Some(h) => {
                    let a = concat_str("/", sk.name.as_str());
                    let b = concat_str(a.as_str(), " ");
                    concat_str(b.as_str(), h.as_str())
                },
                None => concat_str("/", sk.name.as_str()),
            };
            let e = SlashEntry {
                disabled: false,
                name: sk.name.clone(),
                usage,
                desc: sk.description.clone(),
                skill: !sk.client_command,
                plugin: sk.client_command,
                section: None,
                completion: None,
            };
            assert(entry_view(e) == skill_entry(*sk));
            proof {
                let es = skill_entries(skills@.take(i as int), builtins@, plugins@, prefix@);
                assert(skill_entries(skills@.take(i + 1), builtins@, plugins@, prefix@) == es.push(skill_entry(*sk)));
                assert(es.push(skill_entry(*sk)).drop_last() =~= es);
                assert(es.push(skill_entry(*sk)).last() == skill_entry(*sk));
            }
            insert_by_name(&mut out, e);
        }
        i = i + 1;
    }
    assert(skills@.take(skills.len() as int) =~= skills@);
    out
}

fn append_entries(front: &mut Vec<SlashEntry>, back: Vec<SlashEntry>)
    ensures
        entry_views(final(front)@) == entry_views(old(front)@) + entry_views(back@),
{
    let ghost start = entry_views(front@);
    let ghost tail = entry_views(back@);
    let mut stack = crate::acp::reversed(back);
    let ghost mut j: int = 0;
    while stack.len() > 0
        invariant
            0 <= j <= tail.len(),
            entry_views(stack@) == tail.skip(j).reverse(),
            entry_views(front@) == start + tail.take(j),
        decreases stack.len(),
    {
        let ghost before = entry_views(stack@);
        let e = stack.pop().unwrap();
        proof {
            assert(tail.skip(j).reverse().last() == tail[j]);
            assert(before.drop_last() =~= entry_views(stack@));
            assert(entry_views(stack@) =~= tail.skip(j + 1).reverse());
        }
        let ghost b = entry_views(front@);
        let ghost ev = entry_view(e);
        front.push(e);
        proof {
            assert(entry_views(front@) =~= b.push(ev));
            assert(tail.take(j + 1) =~= tail.take(j).push(tail[j]));
            j = j + 1;
        }
    }
    assert(tail.take(j) =~= tail);
}

/// The commands a typed `/prefix` can complete to.
fn command_entries(src: &MenuSources, prefix: &Vec<char>) -> (r: Vec<SlashEntry>)
    ensures
        entry_views(r@) == command_matches(*src, prefix@),
{
    let mut all = builtin_list(&src.builtins, prefix);
    let plugins = plugin_list(&src.plugin_commands, &src.builtins, prefix);
    append_entries(&mut all, plugins);
    let skills = skill_list(&src.skills, &src.builtins, &src.plugin_commands, prefix);
    append_entries(&mut all, skills);
    exact_first(all, prefix)
}

fn option_list(options: &Vec<PluginCommandOption>, name: &str, prefix: &Vec<char>) -> (r: Vec<SlashEntry>)
    ensures
        entry_views(r@) == option_entries(options@, name@, prefix@),
{
    let mut out: Vec<SlashEntry> = Vec::new();
    let mut i: usize = 0;
    while i < options.len()
        invariant
            i <= options.len(),
            entry_views(out@) == option_entries(options@.take(i as int), name@, prefix@),
        decreases options.len() - i,
    {
        let o = &options[i];
        assert(options@.take(i + 1).drop_last() =~= options@.take(i as int));
        assert(options@.take(i + 1).last() == *o);
        if starts_with(&chars_of(o.value.as_str()), prefix) {
            let a = concat_str("/", name);
            let b = concat_str(a.as_str(), " ");
            let completion = concat_str(b.as_str(), o.value.as_str());
            let e = SlashEntry {
                disabled: o.disabled,
                name: name.to_owned(),
                usage: match &o.label {
                    Some(l) => l.clone(),
                    None => o.value.clone(),
                },
                desc: match &o.description {
                    Some(d) => d.clone(),
                    None => String::new(),
                },
                skill: false,
                plugin: true,
                section: None,
                completion: Some(completion),
            };
            let ghost b = entry_views(out@);
            let ghost ev = entry_view(e);
            out.push(e);
            assert(entry_views(out@) =~= b.push(ev));
        }
        i = i + 1;
    }
    assert(options@.take(options.len() as int) =~= options@);
    out
}

fn row_list(
    rows: &Vec<(String, String, String)>,
    name: &str,
    prefix: &Vec<char>,
    sections: &(String, String),
) -> (r: Vec<SlashEntry>)
    ensures
        entry_views(r@) == row_entries(rows_view(rows@), name@, prefix@, (sections.0@, sections.1@)),
{
    let ghost rv = rows_view(rows@);
    let theme = str_eq(name, "theme");
    let mut out: Vec<SlashEntry> = Vec::new();
    let mut i: usize = 0;
    while i < rows.len()
        invariant
            i <= rows.len(),
            rv == rows_view(rows@),
            theme == (name@ == "theme"@),
            entry_views(out@) == row_entries(rv.take(i as int), name@, prefix@, (sections.0@, sections.1@)),
        decreases rows.len() - i,
    {
        let row = &rows[i];
        assert(rv.take(i + 1).drop_last() =~= rv.take(i as int));
        assert(rv.take(i + 1).last() == (row.0@, row.1@, row.2@));
        if starts_with(&chars_of(row.0.as_str()), prefix) {
            let section = if theme {
                if str_eq(row.0.as_str(), "toggle") {
                    Some(sections.0.clone())
                } else {
                    Some(sections.1.clone())
                }
            } else {
                None
            };
            let a = concat_str("/", name);
            let b = concat_str(a.as_str(), " ");
            let completion = concat_str(b.as_str(), row.0.as_str());
            let e = SlashEntry {
                disabled: false,
                name: name.to_owned(),
                usage: row.1.clone(),
                desc: row.2.clone(),
                skill: false,
                plugin: false,
                section,
                completion: Some(completion),
            };
            let ghost b = entry_views(out@);
            let ghost ev = entry_view(e);
            out.push(e);
            assert(entry_views(out@) =~= b.push(ev));
        }
        i = i + 1;
    }
    assert(rv.take(rows.len() as int) =~= rv);
    out
}

/// The argument candidates of `/name arg`.
fn argument_entries(name: &str, arg: &str, src: &MenuSources) -> (r: Vec<SlashEntry>)
    ensures
        entry_views(r@) == argument_matches(name@, arg@, *src),
{
    let chars = chars_of(arg);
    let a = trim_start_index(&chars);
    let prefix_string = string_from_range(&chars, a, chars.len());
    let prefix = chars_of(prefix_string.as_str());
    assert(prefix@ == trim_start(arg@));
    let mut k: usize = 0;
    while k < prefix.len()
        invariant
            k <= prefix.len(),
            prefix@ == trim_start(arg@),
            forall|j: int| 0 <= j < k ==> !is_white(#[trigger] prefix@[j]),
        decreases prefix.len() - k,
    {
        if char_is_white(prefix[k]) {
            proof {
                assert(is_white(prefix@[k as int]));
            }
            let out: Vec<SlashEntry> = Vec::new();
            assert(entry_views(out@) =~= Seq::<EntryView>::empty());
            return out;
        }
        k = k + 1;
    }
    if !builtin_named(&src.builtins, name) {
        if let Some(p) = plugin_index(&src.plugin_commands, name) {
            let c = &src.plugin_commands[p];
            return match &c.input {
                Some(input) => option_list(&input.options, name, &prefix),
                None => {
                    let out: Vec<SlashEntry> = Vec::new();
                    assert(entry_views(out@) =~= Seq::<EntryView>::empty());
                    out
                },
            };
        }
    }
    let rows = builtin_argument_options(name, &src.arguments);
    row_list(&rows, name, &prefix, &src.theme_sections)
}

/// The `/` menu for the first line of the composer: nothing unless it starts
/// with `/`; the argument candidates once the command name is followed by
/// a space; else the commands the typed name can complete to — builtins in
/// table order, then plugin commands and skills each by name, an exact
/// match first.
pub fn slash_matches(first: &str, src: &MenuSources) -> (r: Vec<SlashEntry>)
    ensures
        entry_views(r@) == menu_entries(first@, *src),
{
    let chars = chars_of(first);
    if chars.len() == 0 || chars[0] != '/' {
        let out: Vec<SlashEntry> = Vec::new();
        assert(entry_views(out@) =~= Seq::<EntryView>::empty());
        return out;
    }
    let rest_string = string_from_range(&chars, 1, chars.len());
    let rest = chars_of(rest_string.as_str());
    assert(rest@ =~= first@.drop_first());
    match crate::text::index_of_char(&rest, ' ') {
        Some(k) => {
            proof {
                crate::text::lemma_first_index(rest@, ' ', k as int);
            }
            let name = string_from_range(&rest, 0, k);
            let arg = string_from_range(&rest, k + 1, rest.len());
            assert(rest@.subrange(0, k as int) =~= rest@.take(k as int));
            assert(rest@.subrange(k + 1, rest@.len() as int) =~= rest@.skip(k + 1));
            argument_entries(name.as_str(), arg.as_str(), src)
        },
        None => command_entries(src, &rest),
    }
}

/// The values in effect that an option menu can start on.
pub struct OptionCurrents {
    pub model: String,
    pub effort: Option<String>,
    pub agent: String,
    pub harness: Option<String>,
    pub theme: String,
    pub permission: String,
}

/// The value in effect for an open builtin option menu (`/model `,
/// `/effort `, `/agent `, `/harness `, `/theme `, `/permission `); none for
/// command lists, plugin option lists and other menus.
pub open spec fn option_current(entries: Seq<EntryView>, cur: OptionCurrents) -> Option<Seq<char>> {
    if entries.len() == 0 || entries[0].completion is None || (exists|i: int|
        0 <= i < entries.len() && (#[trigger] entries[i]).plugin) {
        None
    } else {
        let name = entries[0].name;
        if name == "model"@ {
            Some(cur.model@)
        } else if name == "effort"@ {
            opt(cur.effort)
        } else if name == "agent"@ {
            Some(cur.agent@)
        } else if name == "harness"@ {
            opt(cur.harness)
        } else if name == "theme"@ {
            Some(cur.theme@)
        } else if name == "permission"@ {
            Some(cur.permission@)
        } else {
            None
        }
    }
}

/// Whether an entry completes `/name value`.
pub open spec fn completes_to(e: EntryView, value: Seq<char>) -> bool {
    e.completion == Some("/"@ + e.name + " "@ + value)
}

/// The first entry completing to `value`.
pub open spec fn first_completing(entries: Seq<EntryView>, value: Seq<char>) -> Option<int>
    decreases entries.len(),
{
    if entries.len() == 0 {
        None
    } else if completes_to(entries[0], value) {
        Some(0)
    } else {
        match first_completing(entries.drop_first(), value) {
            Some(i) => Some(i + 1),
            None => None,
        }
    }
}

/// Where the menu selection restarts: on the option in effect when the open
/// menu is a builtin option list that offers it, else at the head.
pub open spec fn snapped_sel(entries: Seq<EntryView>, cur: OptionCurrents) -> int {
    match option_current(entries, cur) {
        Some(v) => match first_completing(entries, v) {
            Some(i) => i,
            None => 0,
        },
        None => 0,
    }
}

/// A builtin option menu (rows with completions, no plugin row) starts on
/// the value in effect for its command: the model, effort, agent, harness,
/// theme or permission currently set.
pub proof fn law_option_menus_know_the_value_in_effect(entries: Seq<EntryView>, cur: OptionCurrents)
    requires
        entries.len() > 0,
        entries[0].completion is Some,
        forall|i: int| 0 <= i < entries.len() ==> !(#[trigger] entries[i]).plugin,
    ensures
        entries[0].name == "model"@ ==> option_current(entries, cur) == Some(cur.model@),
        entries[0].name == "effort"@ ==> option_current(entries, cur) == opt(cur.effort),
        entries[0].name == "agent"@ ==> option_current(entries, cur) == Some(cur.agent@),
        entries[0].name == "harness"@ ==> option_current(entries, cur) == opt(cur.harness),
        entries[0].name == "theme"@ ==> option_current(entries, cur) == Some(cur.theme@),
        entries[0].name == "permission"@ ==> option_current(entries, cur) == Some(cur.permission@),
{
    reveal_strlit("model");
    reveal_strlit("effort");
    reveal_strlit("agent");
    reveal_strlit("harness");
    reveal_strlit("theme");
    reveal_strlit("permission");
    let names = seq!["model"@, "effort"@, "agent"@, "harness"@, "theme"@, "permission"@];
    assert forall|a: int, b: int| 0 <= a < b < 6 implies names[a] != names[b] by {
        if names[a].len() == names[b].len() {
            assert(names[a][0] != names[b][0]);
        }
    }
    assert(names[0] == "model"@);
    assert(names[1] == "effort"@);
    assert(names[2] == "agent"@);
    assert(names[3] == "harness"@);
    assert(names[4] == "theme"@);
    assert(names[5] == "permission"@);
}

/// `first_completing` finds the first row that completes to `value`.
pub proof fn lemma_first_completing_is_first(entries: Seq<EntryView>, value: Seq<char>, i: int)
    requires
        0 <= i < entries.len(),
        completes_to(entries[i], value),
        forall|j: int| 0 <= j < i ==> !completes_to(#[trigger] entries[j], value),
    ensures
        first_completing(entries, value) == Some(i),
    decreases i,
{
    if i > 0 {
        assert forall|j: int| 0 <= j < i - 1 implies !completes_to(#[trigger] entries.drop_first()[j], value) by {
            assert(entries.drop_first()[j] == entries[j + 1]);
        }
        assert(!completes_to(entries[0], value));
        lemma_first_completing_is_first(entries.drop_first(), value, i - 1);
    }
}

/// On the permission menu the selection snaps to the first row completing
/// to the permission in effect; on a builtin option menu whose value in
/// effect no row offers, and on any other menu, it snaps to the head.
pub proof fn law_permission_menu_snaps_to_the_permission_in_effect(
    entries: Seq<EntryView>,
    cur: OptionCurrents,
    i: int,
)
    requires
        entries.len() > 0,
        entries[0].completion is Some,
        forall|k: int| 0 <= k < entries.len() ==> !(#[trigger] entries[k]).plugin,
        entries[0].name == "permission"@,
        0 <= i < entries.len(),
        completes_to(entries[i], cur.permission@),
        forall|j: int| 0 <= j < i ==> !completes_to(#[trigger] entries[j], cur.permission@),
    ensures
        option_current(entries, cur) == Some(cur.permission@),
        snapped_sel(entries, cur) == i,
{
    law_option_menus_know_the_value_in_effect(entries, cur);
    lemma_first_completing_is_first(entries, cur.permission@, i);
}

/// Wherever the selection snaps to a row other than the head, that row
/// completes to the value in effect of a builtin option menu.
pub proof fn law_snapped_row_offers_the_value_in_effect(entries: Seq<EntryView>, cur: OptionCurrents)
    ensures
        snapped_sel(entries, cur) != 0 ==> option_current(entries, cur) is Some && 0 <= snapped_sel(entries, cur)
            < entries.len() && completes_to(entries[snapped_sel(entries, cur)], option_current(entries, cur)->0),
{
    if let Some(v) = option_current(entries, cur) {
        lemma_first_completing_found(entries, v);
    }
}

proof fn lemma_first_completing_found(entries: Seq<EntryView>, value: Seq<char>)
    ensures
        first_completing(entries, value) matches Some(i) ==> 0 <= i < entries.len() && completes_to(entries[i], value),
    decreases entries.len(),
{
    if entries.len() > 0 && !completes_to(entries[0], value) {
        lemma_first_completing_found(entries.drop_first(), value);
        if let Some(i) = first_completing(entries.drop_first(), value) {
            assert(entries.drop_first()[i] == entries[i + 1]);
        }
    }
}

/// The value in effect for an open builtin option menu, if the menu is one.
pub fn builtin_option_current(entries: &Vec<SlashEntry>, cur: &OptionCurrents) -> (r: Option<String>)
    ensures
        opt(r) == option_current(entry_views(entries@), *cur),
{
    let ghost ev = entry_views(entries@);
    if entries.len() == 0 || entries[0].completion.is_none() {
        return None;
    }
    let mut i: usize = 0;
    while i < entries.len()
        invariant
            i <= entries.len(),
            ev == entry_views(entries@),
            forall|j: int| 0 <= j < i ==> !(#[trigger] ev[j]).plugin,
        decreases entries.len() - i,
    {
        assert(ev[i as int] == entry_view(entries@[i as int]));
        if entries[i].plugin {
            return None;
        }
        i = i + 1;
    }
    proof {
        assert(!(exists|j: int| 0 <= j < ev.len() && (#[trigger] ev[j]).plugin));
        assert(ev[0] == entry_view(entries@[0]));
    }
    let name = entries[0].name.as_str();
    if str_eq(name, "model") {
        Some(cur.model.clone())
    } else if str_eq(name, "effort") {
        match &cur.effort {
            Some(e) => Some(e.clone()),
            None => None,
        }
    } else if str_eq(name, "agent") {
        Some(cur.agent.clone())
    } else if str_eq(name, "harness") {
        match &cur.harness {
            Some(h) => Some(h.clone()),
            None => None,
        }
    } else if str_eq(name, "theme") {
        Some(cur.theme.clone())
    } else if str_eq(name, "permission") {
        Some(cur.permission.clone())
    } else {
        None
    }
}

/// Where the `/` menu selection restarts after an edit: on the option in
/// effect when the open menu is a builtin option list, else at the head.
pub fn snap_slash_sel(entries: &Vec<SlashEntry>, cur: &OptionCurrents) -> (r: usize)
    ensures
        r == snapped_sel(entry_views(entries@), *cur),
{
    let ghost ev = entry_views(entries@);
    let value = match builtin_option_current(entries, cur) {
        Some(v) => v,
        None => {
            return 0;
        },
    };
    let mut i: usize = 0;
    assert(ev.skip(0) =~= ev);
    while i < entries.len()
        invariant
            i <= entries.len(),
            ev == entry_views(entries@),
            option_current(ev, *cur) == Some(value@),
            first_completing(ev, value@) == match first_completing(ev.skip(i as int), value@) {
                Some(k) => Some(k + i),
                None => None::<int>,
            },
        decreases entries.len() - i,
    {
        let e = &entries[i];
        proof {
            assert(ev.skip(i as int)[0] == entry_view(*e));
            assert(ev.skip(i as int).drop_first() =~= ev.skip(i + 1));
        }
        let a = concat_str("/", e.name.as_str());
        let b = concat_str(a.as_str(), " ");
        let want = concat_str(b.as_str(), value.as_str());
        let hit = match &e.completion {
            Some(c) => str_eq(c.as_str(), want.as_str()),
            None => false,
        };
        if hit {
            proof {
                assert(completes_to(entry_view(*e), value@));
            }
            return i;
        }
        i = i + 1;
    }
    proof {
        assert(ev.skip(i as int) =~= Seq::<EntryView>::empty());
    }
    0
}

/// What picking a menu entry does.
pub enum AcceptAction {
    /// A disabled entry: nothing.
    Nothing,
    /// Run the plugin command on the line's argument; the line joins the
    /// prompt history and the composer clears.
    InvokePlugin { line: String, name: String, args: String },
    /// Send the composer text, now the completed skill line, as a prompt.
    Submit(String),
    /// Put `/name ` in the composer for the skill's argument.
    Complete(String),
    /// Clear the composer and run the builtin command with the argument.
    Run { name: String, arg: String },
}

/// The argument of `/name …` in a composer line: what follows the command
/// name, trimmed; empty when the line does not start with it.
pub open spec fn argument_of(line: Seq<char>, name: Seq<char>) -> Seq<char> {
    if line.len() > 0 && line[0] == '/' && has_prefix(line.drop_first(), name) {
        crate::text::trim(line.drop_first().skip(name.len() as int))
    } else {
        Seq::empty()
    }
}

fn argument_in(line: &str, name: &str) -> (r: String)
    ensures
        r@ == argument_of(line@, name@),
{
    let v = chars_of(line);
    let n = chars_of(name);
    if v.len() == 0 || v[0] != '/' {
        return String::new();
    }
    let rest = string_from_range(&v, 1, v.len());
    let rv = chars_of(rest.as_str());
    assert(rv@ =~= line@.drop_first());
    if !starts_with(&rv, &n) {
        return String::new();
    }
    let tail = string_from_range(&rv, n.len(), rv.len());
    assert(tail@ =~= line@.drop_first().skip(name@.len() as int));
    crate::text::trim_string(tail.as_str())
}

/// Picking `entry` from the menu while the composer holds `buffer`: an
/// argument candidate first completes the line; a plugin command then runs
/// on the line's argument; a skill is sent once its line is complete and
/// completed otherwise; a builtin runs on the line's argument.
pub fn accept_entry(entry: &SlashEntry, buffer: &str) -> (r: AcceptAction)
    ensures
        ({
            let line = match entry.completion {
                Some(c) => c@,
                None => buffer@,
            };
            let full = "/"@ + entry.name@;
            if entry.disabled {
                r is Nothing
            } else if entry.plugin {
                r matches AcceptAction::InvokePlugin { line: l, name, args } && l@ == line && name@
                    == entry.name@ && args@ == argument_of(line, entry.name@)
            } else if entry.skill {
                if crate::text::trim(line) == full || has_prefix(crate::text::trim(line), full + " "@) {
                    r matches AcceptAction::Submit(t) && t@ == line
                } else {
                    r matches AcceptAction::Complete(t) && t@ == full + " "@
                }
            } else {
                r matches AcceptAction::Run { name, arg } && name@ == entry.name@ && arg@ == argument_of(
                    line,
                    entry.name@,
                )
            }
        }),
{
    if entry.disabled {
        return AcceptAction::Nothing;
    }
    let line: String = match &entry.completion {
        Some(c) => c.clone(),
        None => buffer.to_owned(),
    };
    if entry.plugin {
        let args = argument_in(line.as_str(), entry.name.as_str());
        return AcceptAction::InvokePlugin { line, name: entry.name.clone(), args };
    }
    if entry.skill {
        let full = concat_str("/", entry.name.as_str());
        let with_space = concat_str(full.as_str(), " ");
        let trimmed = crate::text::trim_string(line.as_str());
        if str_eq(trimmed.as_str(), full.as_str()) || starts_with(
            &chars_of(trimmed.as_str()),
            &chars_of(with_space.as_str()),
        ) {
            return AcceptAction::Submit(line);
        }
        return AcceptAction::Complete(with_space);
    }
    let arg = argument_in(line.as_str(), entry.name.as_str());
    AcceptAction::Run { name: entry.name.clone(), arg }
}

} // verus!
