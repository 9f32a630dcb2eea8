//! The harness `settings.json` selects, and every harness it offers.
//!
//! `defaultHarness` names an entry of `harnesses`; the legacy `activeHarness`
//! counts only while `defaultHarness` is absent altogether, so an explicit
//! `null` default selects nothing (the bundled agent). Malformed entries are
//! skipped, never fatal: the caller always has a fallback agent.
use vstd::prelude::*;
use crate::json::Json;
use crate::text::{
    ascii_lower_seq, ascii_lowercase, chars_of, char_len, seq_eq, str_eq, string_from, trim, trim_string,
};

verus! {

/// The characters of each string, in order.
pub open spec fn str_views(v: Seq<String>) -> Seq<Seq<char>> {
    v.map_values(|s: String| s@)
}

/// The characters of each `(name, value)` pair, in order.
pub open spec fn pair_views(v: Seq<(String, String)>) -> Seq<(Seq<char>, Seq<char>)> {
    v.map_values(|p: (String, String)| (p.0@, p.1@))
}

/// `list` joined by `sep` (`[T]::join`).
pub open spec fn join(list: Seq<Seq<char>>, sep: Seq<char>) -> Seq<char>
    decreases list.len(),
{
    if list.len() == 0 {
        Seq::empty()
    } else if list.len() == 1 {
        list[0]
    } else {
        join(list.drop_last(), sep) + sep + list.last()
    }
}

/// A configured harness: the agent to spawn, its arguments, and extra environment.
pub struct Harness {
    pub command: String,
    pub args: Vec<String>,
    pub env: Vec<(String, String)>,
}

pub struct HarnessView {
    pub command: Seq<char>,
    pub args: Seq<Seq<char>>,
    pub env: Seq<(Seq<char>, Seq<char>)>,
}

impl View for Harness {
    type V = HarnessView;

    open spec fn view(&self) -> HarnessView {
        HarnessView { command: self.command@, args: str_views(self.args@), env: pair_views(self.env@) }
    }
}

/// The spawn argv of a harness: the command, then its arguments.
pub open spec fn argv_view(h: HarnessView) -> Seq<Seq<char>> {
    seq![h.command] + h.args
}

/// A configured harness plus the identity `settings.json` knows it by.
pub struct HarnessEntry {
    pub id: String,
    pub label: String,
    pub harness: Harness,
}

pub struct HarnessEntryView {
    pub id: Seq<char>,
    pub label: Seq<char>,
    pub harness: HarnessView,
}

impl View for HarnessEntry {
    type V = HarnessEntryView;

    open spec fn view(&self) -> HarnessEntryView {
        HarnessEntryView { id: self.id@, label: self.label@, harness: self.harness@ }
    }
}

pub fn clone_strings(v: &Vec<String>) -> (r: Vec<String>)
    ensures
        str_views(r@) == str_views(v@),
{
    let mut r: Vec<String> = Vec::new();
    let mut i: usize = 0;
    while i < v.len()
        invariant
            i <= v.len(),
            str_views(r@) == str_views(v@.take(i as int)),
        decreases v.len() - i,
    {
        let ghost old_r = r@;
        r.push(v[i].clone());
        assert(str_views(r@) =~= str_views(old_r).push(v@[i as int]@));
        assert(str_views(v@.take(i + 1)) =~= str_views(v@.take(i as int)).push(v@[i as int]@));
        assert(str_views(r@) =~= str_views(v@.take(i as int)).push(v@[i as int]@));
        i = i + 1;
    }
    assert(v@.take(v.len() as int) =~= v@);
    r
}

impl Harness {
    /// Spawn argv, the same shape `--agent` / `--agent-arg` produce.
    pub fn argv(&self) -> (r: Vec<String>)
        ensures
            str_views(r@) == argv_view(self@),
    {
        let mut argv: Vec<String> = Vec::new();
        argv.push(self.command.clone());
        let mut i: usize = 0;
        while i < self.args.len()
            invariant
                i <= self.args.len(),
                str_views(argv@) == seq![self.command@] + str_views(self.args@.take(i as int)),
            decreases self.args.len() - i,
        {
            let ghost old_argv = argv@;
            argv.push(self.args[i].clone());
            assert(str_views(argv@) =~= str_views(old_argv).push(self.args@[i as int]@));
            assert(str_views(self.args@.take(i + 1)) =~= str_views(self.args@.take(i as int)).push(
                self.args@[i as int]@,
            ));
            assert(str_views(argv@) =~= seq![self.command@] + str_views(self.args@.take(i + 1)));
            i = i + 1;
        }
        assert(self.args@.take(self.args.len() as int) =~= self.args@);
        argv
    }
}

/// The strings of `list` joined by single spaces.
pub fn join_spaces(list: &Vec<String>) -> (r: String)
    ensures
        r@ == join(str_views(list@), seq![' ']),
{
    let r = crate::text::join_with(list, " ");
    proof {
        reveal_strlit(" ");
        assert(" "@ =~= seq![' ']);
        assert(str_views(list@) =~= list@.map_values(|t: String| t@));
    }
    r
}

impl HarnessEntry {
    /// The spawn argv, space-joined the way the npm host displays a recipe.
    pub fn command_text(&self) -> (r: String)
        ensures
            r@ == join(argv_view(self.harness@), seq![' ']),
    {
        let argv = self.harness.argv();
        join_spaces(&argv)
    }
}

/// The final component of a path, as `Path::file_name` computes it.
pub uninterp spec fn path_file_name(path: Seq<char>) -> Option<Seq<char>>;

/// A path that is one plain name on every platform: not empty, not `.` or
/// `..`, and free of `/`, `\\` and `:` (no separator, no drive prefix).
pub open spec fn bare_name(path: Seq<char>) -> bool {
    &&& path.len() > 0
    &&& path != "."@
    &&& path != ".."@
    &&& forall|i: int| 0 <= i < path.len() ==> path[i] != '/' && path[i] != '\\' && path[i] != ':'
}

/// `Path::file_name`, lossily converted to a `String`. The contract names the
/// result `path_file_name(path)`; beyond that it says only that a bare name
/// is its own file name. How `std` splits other paths is left unsaid: the
/// separators and prefixes it knows depend on the target platform.
#[verifier::external_body]
pub(crate) fn file_name_of(path: &str) -> (r: Option<String>)
    ensures
        r is Some ==> path_file_name(path@) == Some(r->0@),
        r is None ==> path_file_name(path@) is None,
        bare_name(path@) ==> r is Some && r->0@ == path@,
{
    std::path::Path::new(path).file_name().map(|name| name.to_string_lossy().into_owned())
}

pub open spec fn npx_names() -> Seq<Seq<char>> {
    seq![
        seq!['n', 'p', 'x'],
        seq!['n', 'p', 'x', '.', 'c', 'm', 'd'],
        seq!['n', 'p', 'x', '.', 'b', 'a', 't'],
        seq!['n', 'p', 'x', '.', 'e', 'x', 'e'],
    ]
}

/// The command runs `npx`: its file name, ASCII-lowercased, is `npx`,
/// `npx.cmd`, `npx.bat` or `npx.exe`.
pub open spec fn spec_is_npx(command: Seq<char>) -> bool {
    match path_file_name(command) {
        Some(name) => npx_names().contains(ascii_lower_seq(name)),
        None => false,
    }
}

fn lit_chars(s: &str) -> (v: Vec<char>)
    ensures
        v@ == s@,
{
    chars_of(s)
}

fn is_npx(command: &str) -> (b: bool)
    ensures
        b == spec_is_npx(command@),
        bare_name(command@) ==> path_file_name(command@) == Some(command@),
{
    match file_name_of(command) {
        Some(name) => {
            let base = chars_of(ascii_lowercase(name.as_str()).as_str());
            let a = lit_chars("npx");
            let b = lit_chars("npx.cmd");
            let c = lit_chars("npx.bat");
            let d = lit_chars("npx.exe");
            proof {
                reveal_strlit("npx");
                reveal_strlit("npx.cmd");
                reveal_strlit("npx.bat");
                reveal_strlit("npx.exe");
                assert(a@ =~= npx_names()[0]);
                assert(b@ =~= npx_names()[1]);
                assert(c@ =~= npx_names()[2]);
                assert(d@ =~= npx_names()[3]);
            }
            let r = seq_eq(&base, &a) || seq_eq(&base, &b) || seq_eq(&base, &c) || seq_eq(&base, &d);
            proof {
                if npx_names().contains(base@) {
                    let k = choose|k: int| 0 <= k < 4 && npx_names()[k] == base@;
                    assert(k == 0 || k == 1 || k == 2 || k == 3);
                }
                if r {
                    if base@ == a@ { assert(npx_names()[0] == base@); }
                    else if base@ == b@ { assert(npx_names()[1] == base@); }
                    else if base@ == c@ { assert(npx_names()[2] == base@); }
                    else { assert(npx_names()[3] == base@); }
                }
            }
            r
        },
        None => false,
    }
}


/// The string items of an array, in order; other items are skipped.
pub open spec fn strings_of(items: Seq<Json>) -> Seq<Seq<char>>
    decreases items.len(),
{
    if items.len() == 0 {
        Seq::empty()
    } else {
        let rest = strings_of(items.drop_last());
        match items.last().str_view() {
            Some(s) => rest.push(s),
            None => rest,
        }
    }
}

/// The `(key, string)` entries of an object with a non-empty key, in order.
pub open spec fn pairs_of(entries: Seq<(String, Json)>) -> Seq<(Seq<char>, Seq<char>)>
    decreases entries.len(),
{
    if entries.len() == 0 {
        Seq::empty()
    } else {
        let rest = pairs_of(entries.drop_last());
        let (k, v) = entries.last();
        if k@.len() > 0 && v.str_view() is Some {
            rest.push((k@, v.str_view()->0))
        } else {
            rest
        }
    }
}

/// The string items of an optional array value (none when it is absent or
/// not an array).
pub open spec fn json_strings(value: Option<Json>) -> Seq<Seq<char>> {
    match value {
        Some(v) => match v.items() {
            Some(items) => strings_of(items),
            None => Seq::empty(),
        },
        None => Seq::empty(),
    }
}

/// The string entries of an optional object value.
pub open spec fn json_pairs(value: Option<Json>) -> Seq<(Seq<char>, Seq<char>)> {
    match value {
        Some(v) => match v.entries() {
            Some(m) => pairs_of(m),
            None => Seq::empty(),
        },
        None => Seq::empty(),
    }
}

/// `args` without the flags that make `npx` re-resolve a package per spawn.
pub open spec fn drop_reinstall(args: Seq<Seq<char>>) -> Seq<Seq<char>>
    decreases args.len(),
{
    if args.len() == 0 {
        Seq::empty()
    } else {
        let rest = drop_reinstall(args.drop_last());
        let a = args.last();
        if a == "--yes"@ || a == "--prefer-offline"@ {
            rest
        } else {
            rest.push(a)
        }
    }
}

/// The harness an entry describes: a trimmed, non-empty `command`, its
/// string `args` (without `--yes`/`--prefer-offline` for `npx`) and its
/// string `env` entries.
pub open spec fn harness_of(entry: Json) -> Option<HarnessView> {
    match entry.member("command"@) {
        Some(c) => match c.str_view() {
            Some(raw) => {
                let command = trim(raw);
                if command.len() == 0 {
                    None
                } else {
                    let args = json_strings(entry.member("args"@));
                    Some(HarnessView {
                        command,
                        args: if spec_is_npx(command) { drop_reinstall(args) } else { args },
                        env: json_pairs(entry.member("env"@)),
                    })
                }
            },
            None => None,
        },
        None => None,
    }
}

/// `defaultHarness` when present (a string, else nothing), the legacy
/// `activeHarness` only while `defaultHarness` is absent.
pub open spec fn default_id_of(settings: Json) -> Option<Seq<char>> {
    match settings.member("defaultHarness"@) {
        Some(v) => v.str_view(),
        None => match settings.member("activeHarness"@) {
            Some(v) => v.str_view(),
            None => None,
        },
    }
}

/// The string `id` of an entry, untrimmed.
pub open spec fn id_of(entry: Json) -> Option<Seq<char>> {
    match entry.member("id"@) {
        Some(v) => v.str_view(),
        None => None,
    }
}

/// The first entry whose `id` is exactly `id`.
pub open spec fn first_with_id(items: Seq<Json>, id: Seq<char>) -> Option<Json>
    decreases items.len(),
{
    if items.len() == 0 {
        None
    } else if id_of(items[0]) == Some(id) {
        Some(items[0])
    } else {
        first_with_id(items.drop_first(), id)
    }
}

/// The `harnesses` array of the settings, or nothing.
pub open spec fn harness_items(settings: Json) -> Seq<Json> {
    match settings.member("harnesses"@) {
        Some(h) => match h.items() {
            Some(items) => items,
            None => Seq::empty(),
        },
        None => Seq::empty(),
    }
}

/// The harness `defaultHarness` selects: the first entry carrying that id,
/// when it describes a spawnable harness.
pub open spec fn selected_of(settings: Json) -> Option<HarnessView> {
    match default_id_of(settings) {
        Some(id) => match settings.member("harnesses"@) {
            Some(h) => match h.items() {
                Some(items) => match first_with_id(items, id) {
                    Some(entry) => harness_of(entry),
                    None => None,
                },
                None => None,
            },
            None => None,
        },
        None => None,
    }
}

/// The picker row an entry yields: a non-blank trimmed id, a spawnable
/// recipe, and the trimmed label (the id when the label is absent or blank).
pub open spec fn entry_of(entry: Json) -> Option<HarnessEntryView> {
    match id_of(entry) {
        Some(raw) => {
            let id = trim(raw);
            if id.len() == 0 {
                None
            } else {
                match harness_of(entry) {
                    Some(recipe) => {
                        let label = match entry.member("label"@) {
                            Some(l) => match l.str_view() {
                                Some(text) => if trim(text).len() > 0 { trim(text) } else { id },
                                None => id,
                            },
                            None => id,
                        };
                        Some(HarnessEntryView { id, label, harness: recipe })
                    },
                    None => None,
                }
            }
        },
        None => None,
    }
}

/// Every entry's picker row, in file order, skipping entries that yield none.
pub open spec fn entries_of(items: Seq<Json>) -> Seq<HarnessEntryView>
    decreases items.len(),
{
    if items.len() == 0 {
        Seq::empty()
    } else {
        let rest = entries_of(items.drop_last());
        match entry_of(items.last()) {
            Some(e) => rest.push(e),
            None => rest,
        }
    }
}

pub(crate) fn strings(value: Option<&Json>) -> (r: Vec<String>)
    ensures
        str_views(r@) == json_strings(match value { Some(v) => Some(*v), None => None }),
{
    let mut out: Vec<String> = Vec::new();
    if let Some(v) = value {
        if let Some(items) = v.as_array() {
            let mut i: usize = 0;
            while i < items.len()
                invariant
                    i <= items.len(),
                    str_views(out@) == strings_of(items@.take(i as int)),
                decreases items.len() - i,
            {
                let ghost before = out@;
                if let Some(s) = items[i].as_str() {
                    out.push(s.to_owned());
                    assert(str_views(out@) =~= str_views(before).push(s@));
                }
                assert(items@.take(i + 1).drop_last() =~= items@.take(i as int));
                i = i + 1;
            }
            assert(items@.take(items.len() as int) =~= items@);
        }
    }
    out
}

fn pairs(value: Option<&Json>) -> (r: Vec<(String, String)>)
    ensures
        pair_views(r@) == json_pairs(match value { Some(v) => Some(*v), None => None }),
{
    let mut out: Vec<(String, String)> = Vec::new();
    if let Some(v) = value {
        if let Some(m) = v.as_object() {
            let mut i: usize = 0;
            while i < m.len()
                invariant
                    i <= m.len(),
                    pair_views(out@) == pairs_of(m@.take(i as int)),
                decreases m.len() - i,
            {
                let ghost before = out@;
                let key = &m[i].0;
                if char_len(key.as_str()) > 0 {
                    if let Some(s) = m[i].1.as_str() {
                        out.push((key.clone(), s.to_owned()));
                        assert(pair_views(out@) =~= pair_views(before).push((key@, s@)));
                    }
                }
                assert(m@.take(i + 1).drop_last() =~= m@.take(i as int));
                i = i + 1;
            }
            assert(m@.take(m.len() as int) =~= m@);
        }
    }
    out
}

fn harness_from(entry: &Json) -> (r: Option<Harness>)
    ensures
        match r {
            Some(h) => harness_of(*entry) == Some(h@),
            None => harness_of(*entry) is None,
        },
        r matches Some(h) ==> (bare_name(h.command@) ==> path_file_name(h.command@) == Some(h.command@)),
{
    let c = entry.get("command")?;
    let raw = c.as_str()?;
    let command = trim_string(raw);
    if char_len(command.as_str()) == 0 {
        return None;
    }
    let args = strings(entry.get("args"));
    let args = if is_npx(command.as_str()) {
        drop_reinstall_flags(&args)
    } else {
        args
    };
    let env = pairs(entry.get("env"));
    Some(Harness { command, args, env })
}

fn drop_reinstall_flags(args: &Vec<String>) -> (r: Vec<String>)
    ensures
        str_views(r@) == drop_reinstall(str_views(args@)),
{
    let yes = chars_of("--yes");
    let offline = chars_of("--prefer-offline");
    let mut out: Vec<String> = Vec::new();
    let mut i: usize = 0;
    while i < args.len()
        invariant
            i <= args.len(),
            yes@ == "--yes"@,
            offline@ == "--prefer-offline"@,
            str_views(out@) == drop_reinstall(str_views(args@.take(i as int))),
        decreases args.len() - i,
    {
        let ghost before = out@;
        let a = chars_of(args[i].as_str());
        if !seq_eq(&a, &yes) && !seq_eq(&a, &offline) {
            out.push(args[i].clone());
            assert(str_views(out@) =~= str_views(before).push(args@[i as int]@));
        }
        assert(str_views(args@.take(i + 1)).drop_last() =~= str_views(args@.take(i as int)));
        i = i + 1;
    }
    assert(args@.take(args.len() as int) =~= args@);
    out
}

fn default_id(settings: &Json) -> (r: Option<&str>)
    ensures
        match r {
            Some(s) => default_id_of(*settings) == Some(s@),
            None => default_id_of(*settings) is None,
        },
{
    match settings.get("defaultHarness") {
        Some(value) => value.as_str(),
        None => match settings.get("activeHarness") {
            Some(value) => value.as_str(),
            None => None,
        },
    }
}

fn entry_id(entry: &Json) -> (r: Option<&str>)
    ensures
        match r {
            Some(s) => id_of(*entry) == Some(s@),
            None => id_of(*entry) is None,
        },
{
    match entry.get("id") {
        Some(v) => v.as_str(),
        None => None,
    }
}

/// The harness `defaultHarness` selects in a parsed `settings.json`, or
/// `None` when the settings name no spawnable configured harness.
#[verifier::loop_isolation(false)]
fn selected_in(settings: &Json) -> (r: Option<Harness>)
    ensures
        match r {
            Some(h) => selected_of(*settings) == Some(h@),
            None => selected_of(*settings) is None,
        },
        r matches Some(h) ==> (bare_name(h.command@) ==> path_file_name(h.command@) == Some(h.command@)),
{
    let id = default_id(settings)?;
    let list = settings.get("harnesses")?;
    let items = list.as_array()?;
    let mut i: usize = 0;
    assert(items@.skip(0) =~= items@);
    while i < items.len()
        invariant
            i <= items.len(),
            first_with_id(items@, id@) == first_with_id(items@.skip(i as int), id@),
        decreases items.len() - i,
    {
        assert(items@.skip(i as int).drop_first() =~= items@.skip(i + 1));
        assert(items@.skip(i as int)[0] == items@[i as int]);
        if let Some(entry_id) = entry_id(&items[i]) {
            if str_eq(entry_id, id) {
                return harness_from(&items[i]);
            }
        }
        i = i + 1;
    }
    None
}

/// The id `defaultHarness` selects right now (the entry need not be
/// spawnable), so a picker can mark it.
fn current_id_in(settings: &Json) -> (r: Option<String>)
    ensures
        match r {
            Some(s) => default_id_of(*settings) == Some(s@),
            None => default_id_of(*settings) is None,
        },
{
    match default_id(settings) {
        Some(s) => Some(s.to_owned()),
        None => None,
    }
}

fn entry_row(entry: &Json) -> (r: Option<HarnessEntry>)
    ensures
        match r {
            Some(e) => entry_of(*entry) == Some(e@),
            None => entry_of(*entry) is None,
        },
{
    let raw = entry_id(entry)?;
    let id = trim_string(raw);
    if char_len(id.as_str()) == 0 {
        return None;
    }
    let recipe = harness_from(entry)?;
    let label = match entry.get("label") {
        Some(l) => match l.as_str() {
            Some(text) => {
                let t = trim_string(text);
                if char_len(t.as_str()) > 0 {
                    t
                } else {
                    id.clone()
                }
            },
            None => id.clone(),
        },
        None => id.clone(),
    };
    Some(HarnessEntry { id, label, harness: recipe })
}

/// Every harness the settings offer, in file order, skipping entries a
/// picker could not act on (no usable id, or no spawnable command).
fn all_in(settings: &Json) -> (r: Vec<HarnessEntry>)
    ensures
        r@.map_values(|e: HarnessEntry| e@) == entries_of(harness_items(*settings)),
{
    let mut out: Vec<HarnessEntry> = Vec::new();
    if let Some(list) = settings.get("harnesses") {
        if let Some(items) = list.as_array() {
            let mut i: usize = 0;
            while i < items.len()
                invariant
                    i <= items.len(),
                    out@.map_values(|e: HarnessEntry| e@) == entries_of(items@.take(i as int)),
                decreases items.len() - i,
            {
                let ghost before = out@;
                if let Some(e) = entry_row(&items[i]) {
                    let ghost ev = e@;
                    out.push(e);
                    assert(out@.map_values(|e: HarnessEntry| e@) =~= before.map_values(
                        |e: HarnessEntry| e@,
                    ).push(ev));
                }
                assert(items@.take(i + 1).drop_last() =~= items@.take(i as int));
                i = i + 1;
            }
            assert(items@.take(items.len() as int) =~= items@);
            return out;
        }
    }
    out
}

/// The harness `defaultHarness` selects, or `None` when the settings file is
/// missing, unreadable or not JSON (`settings` is `None` then), or names no
/// spawnable configured harness. Malformed entries are skipped, not fatal.
pub fn selected(settings: Option<&Json>) -> (r: Option<Harness>)
    ensures
        match r {
            Some(h) => settings matches Some(doc) && selected_of(*doc) == Some(h@),
            None => settings matches Some(doc) ==> selected_of(*doc) is None,
        },
        r matches Some(h) ==> (bare_name(h.command@) ==> path_file_name(h.command@) == Some(h.command@)),
{
    match settings {
        Some(doc) => selected_in(doc),
        None => None,
    }
}

/// Every harness the settings file offers, in file order; nothing when the
/// file is missing or not JSON.
pub fn all(settings: Option<&Json>) -> (r: Vec<HarnessEntry>)
    ensures
        match settings {
            Some(doc) => r@.map_values(|e: HarnessEntry| e@) == entries_of(harness_items(*doc)),
            None => r@.len() == 0,
        },
{
    match settings {
        Some(doc) => all_in(doc),
        None => Vec::new(),
    }
}

/// The id `defaultHarness` selects right now, so the picker can mark it; it
/// need not be spawnable.
pub fn current_id(settings: Option<&Json>) -> (r: Option<String>)
    ensures
        match r {
            Some(s) => settings matches Some(doc) && default_id_of(*doc) == Some(s@),
            None => settings matches Some(doc) ==> default_id_of(*doc) is None,
        },
{
    match settings {
        Some(doc) => current_id_in(doc),
        None => None,
    }
}

/// The settings document a file's text gives.
pub open spec fn settings_of_text(text: Option<&str>) -> Option<Json> {
    crate::json::document_of(match text {
        Some(t) => Some(t@),
        None => None,
    })
}

/// The harness the settings file with this text selects (`None` for no
/// file): its text is parsed, then read as `selected` reads a document.
pub fn selected_text(text: Option<&str>) -> (r: Option<Harness>)
    ensures
        match r {
            Some(h) => settings_of_text(text) matches Some(doc) && selected_of(doc) == Some(h@),
            None => settings_of_text(text) matches Some(doc) ==> selected_of(doc) is None,
        },
        r matches Some(h) ==> (bare_name(h.command@) ==> path_file_name(h.command@) == Some(h.command@)),
{
    let doc = crate::json::parse_file_text(text);
    selected(doc.as_ref())
}

/// Every harness the settings file with this text offers.
pub fn all_text(text: Option<&str>) -> (r: Vec<HarnessEntry>)
    ensures
        match settings_of_text(text) {
            Some(doc) => r@.map_values(|e: HarnessEntry| e@) == entries_of(harness_items(doc)),
            None => r@.len() == 0,
        },
{
    let doc = crate::json::parse_file_text(text);
    all(doc.as_ref())
}

/// The id `defaultHarness` selects in the settings file with this text.
pub fn current_id_text(text: Option<&str>) -> (r: Option<String>)
    ensures
        match r {
            Some(s) => settings_of_text(text) matches Some(doc) && default_id_of(doc) == Some(s@),
            None => settings_of_text(text) matches Some(doc) ==> default_id_of(doc) is None,
        },
{
    let doc = crate::json::parse_file_text(text);
    current_id(doc.as_ref())
}

} // verus!
