//! The settings document: how a file on disk becomes the document every
//! writer patches, and how its pieces are read and written.
//!
//! The file carries keys owned by other programs too, so writers patch the
//! parsed document rather than serialize a schema; a file that exists but
//! does not parse is set aside under a quarantine name, never overwritten.
use vstd::prelude::*;
use crate::json::{Json, entries_lookup, str_member, str_member_of};
use crate::harness::{path_file_name, file_name_of};
use crate::text::{str_is_blank, is_blank, str_eq, concat_str};

verus! {

/// The settings document for a file and what to do with the file.
pub struct SettingsDocument {
    pub document: Json,
    /// The file exists, is not blank, and is not a JSON object: move it
    /// aside before anything writes a fresh one.
    pub quarantine: bool,
}

/// The settings document made from a file's text and its parse: the parsed
/// value when it is an object, else an empty object — and a file with
/// content that did not give an object is quarantined.
pub fn settings_document(existing: Option<&str>, parsed: Option<Json>) -> (r: SettingsDocument)
    ensures
        match parsed {
            Some(v) => v is Object ==> (r.document == v && !r.quarantine),
            None => true,
        },
        !(parsed matches Some(v) && v is Object) ==> (r.document.entries() == Some(Seq::<(String, Json)>::empty())
            && r.quarantine == (existing matches Some(t) && !is_blank(t@))),
{
    match parsed {
        Some(Json::Object(m)) => SettingsDocument { document: Json::Object(m), quarantine: false },
        _ => {
            let quarantine = match existing {
                Some(t) => !str_is_blank(t),
                None => false,
            };
            SettingsDocument { document: Json::Object(Vec::new()), quarantine }
        },
    }
}

/// The names of an object's members, in order.
pub open spec fn member_names(entries: Seq<(String, Json)>) -> Seq<Seq<char>> {
    entries.map_values(|e: (String, Json)| e.0@)
}

proof fn lemma_lookup_update(entries: Seq<(String, Json)>, i: int, v: Json, k: Seq<char>)
    requires
        0 <= i < entries.len(),
        forall|j: int| 0 <= j < i ==> (#[trigger] entries[j]).0@ != entries[i].0@,
    ensures
        k == entries[i].0@ ==> entries_lookup(entries.update(i, (entries[i].0, v)), k) == Some(v),
        k != entries[i].0@ ==> entries_lookup(entries.update(i, (entries[i].0, v)), k) == entries_lookup(
            entries,
            k,
        ),
    decreases i,
{
    let u = entries.update(i, (entries[i].0, v));
    if i > 0 {
        let d = entries.drop_first();
        assert forall|j: int| 0 <= j < i - 1 implies (#[trigger] d[j]).0@ != d[i - 1].0@ by {
            assert(d[j] == entries[j + 1]);
        }
        lemma_lookup_update(d, i - 1, v, k);
        assert(u.drop_first() =~= d.update(i - 1, (d[i - 1].0, v)));
        assert(u[0] == entries[0]);
    } else {
        assert(u.drop_first() =~= entries.drop_first());
    }
}

proof fn lemma_lookup_push(entries: Seq<(String, Json)>, name: String, v: Json, k: Seq<char>)
    requires
        entries_lookup(entries, name@) is None,
    ensures
        k == name@ ==> entries_lookup(entries.push((name, v)), k) == Some(v),
        k != name@ ==> entries_lookup(entries.push((name, v)), k) == entries_lookup(entries, k),
    decreases entries.len(),
{
    if entries.len() > 0 {
        lemma_lookup_push(entries.drop_first(), name, v, k);
        assert(entries.push((name, v)).drop_first() =~= entries.drop_first().push((name, v)));
        assert(entries.push((name, v))[0] == entries[0]);
        if entries[0].0@ != k {
            assert(entries_lookup(entries.push((name, v)), k) == entries_lookup(
                entries.drop_first().push((name, v)),
                k,
            ));
        }
    } else {
        assert(entries.push((name, v)).drop_first() =~= Seq::<(String, Json)>::empty());
        assert(entries.push((name, v))[0] == (name, v));
        assert(entries_lookup(Seq::<(String, Json)>::empty(), k) is None);
    }
}

proof fn lemma_lookup_absent(entries: Seq<(String, Json)>, k: Seq<char>)
    requires
        forall|j: int| 0 <= j < entries.len() ==> (#[trigger] entries[j]).0@ != k,
    ensures
        entries_lookup(entries, k) is None,
    decreases entries.len(),
{
    if entries.len() > 0 {
        assert forall|j: int| 0 <= j < entries.len() - 1 implies (#[trigger] entries.drop_first()[j]).0@ != k by {
            assert(entries.drop_first()[j] == entries[j + 1]);
        }
        lemma_lookup_absent(entries.drop_first(), k);
        assert(entries[0].0@ != k);
    }
}

/// Set `key` of an object document to `value`: a read of `key` then gives
/// `value`, every other key reads as before, and the member names keep
/// their order (a new key comes last).
pub fn set_member(document: &mut Json, key: &str, value: Json)
    requires
        (*old(document)) is Object,
    ensures
        (*final(document)) is Object,
        final(document).member(key@) == Some(value),
        forall|k: Seq<char>| k != key@ ==> #[trigger] final(document).member(k) == old(document).member(k),
        member_names(final(document).entries()->0) == if old(document).member(key@) is Some {
            member_names(old(document).entries()->0)
        } else {
            member_names(old(document).entries()->0).push(key@)
        },
{
    match document {
        Json::Object(m) => {
            let ghost before = m@;
            let mut i: usize = 0;
            let mut found = false;
            while !found && i < m.len()
                invariant
                    i <= m.len(),
                    m@ == before,
                    found ==> i < m.len() && m@[i as int].0@ == key@,
                    forall|j: int| 0 <= j < i ==> (#[trigger] m@[j]).0@ != key@,
                decreases m.len() - i + if found { 0int } else { 1int },
            {
                if str_eq(m[i].0.as_str(), key) {
                    found = true;
                } else {
                    i = i + 1;
                }
            }
            let ghost gv = value;
            if found {
                let (name, _previous) = m.remove(i);
                m.insert(i, (name, value));
                proof {
                    assert(m@ =~= before.update(i as int, (before[i as int].0, gv)));
                    assert forall|k: Seq<char>| #[trigger] entries_lookup(m@, k) == (if k == key@ {
                        Some(gv)
                    } else {
                        entries_lookup(before, k)
                    }) by {
                        lemma_lookup_update(before, i as int, gv, k);
                    }
                    assert(entries_lookup(before, key@) is Some) by {
                        lemma_lookup_update(before, i as int, before[i as int].1, key@);
                        assert(before.update(i as int, (before[i as int].0, before[i as int].1)) =~= before);
                    }
                    assert(member_names(m@) =~= member_names(before));
                }
            } else {
                proof {
                    lemma_lookup_absent(before, key@);
                }
                let owned = key.to_owned();
                let ghost gname = owned;
                m.push((owned, value));
                proof {
                    assert forall|k: Seq<char>| #[trigger] entries_lookup(m@, k) == (if k == key@ {
                        Some(gv)
                    } else {
                        entries_lookup(before, k)
                    }) by {
                        lemma_lookup_push(before, gname, gv, k);
                    }
                    assert(member_names(m@) =~= member_names(before).push(key@));
                }
            }
        },
        _ => {},
    }
}

/// Point `defaultHarness` at `id` in a settings document, every other key
/// preserved.
pub fn with_default_harness(document: &mut Json, id: &str)
    requires
        (*old(document)) is Object,
    ensures
        (*final(document)) is Object,
        final(document).member("defaultHarness"@) matches Some(v) && v.str_view() == Some(id@),
        forall|k: Seq<char>| k != "defaultHarness"@ ==> #[trigger] final(document).member(k) == old(
            document,
        ).member(k),
{
    set_member(document, "defaultHarness", Json::Str(id.to_owned()));
}

/// The preference keys the painter owns in the settings document.
pub open spec fn preference_key(k: Seq<char>) -> bool {
    k == "language"@ || k == "theme"@ || k == "themeMode"@ || k == "markdownTone"@
}

/// Record the interface preferences (language, theme pack, theme mode,
/// markdown tone) in a settings document; every key the painter does not
/// own — the compositor's, the harness recipes — stays as it was.
pub fn with_preferences(document: &mut Json, language: &str, theme: &str, theme_mode: &str, tone: &str)
    requires
        (*old(document)) is Object,
    ensures
        (*final(document)) is Object,
        final(document).member("language"@) matches Some(v) && v.str_view() == Some(language@),
        final(document).member("theme"@) matches Some(v) && v.str_view() == Some(theme@),
        final(document).member("themeMode"@) matches Some(v) && v.str_view() == Some(theme_mode@),
        final(document).member("markdownTone"@) matches Some(v) && v.str_view() == Some(tone@),
        forall|k: Seq<char>| !preference_key(k) ==> #[trigger] final(document).member(k) == old(document).member(k),
{
    let ghost d0 = *document;
    set_member(document, "language", Json::Str(language.to_owned()));
    let ghost d1 = *document;
    set_member(document, "theme", Json::Str(theme.to_owned()));
    let ghost d2 = *document;
    set_member(document, "themeMode", Json::Str(theme_mode.to_owned()));
    let ghost d3 = *document;
    set_member(document, "markdownTone", Json::Str(tone.to_owned()));
    proof {
        assert forall|k: Seq<char>| !preference_key(k) implies #[trigger] document.member(k) == d0.member(k) by {
            assert(document.member(k) == d3.member(k));
            assert(d3.member(k) == d2.member(k));
            assert(d2.member(k) == d1.member(k));
            assert(d1.member(k) == d0.member(k));
        }
        reveal_strlit("language");
        reveal_strlit("theme");
        reveal_strlit("themeMode");
        reveal_strlit("markdownTone");
        assert("language"@.len() == 8 && "theme"@.len() == 5 && "themeMode"@.len() == 9 && "markdownTone"@.len() == 12);
        assert(d2.member("language"@) == d1.member("language"@));
        assert(d3.member("language"@) == d2.member("language"@));
        assert(document.member("language"@) == d3.member("language"@));
        assert(d3.member("theme"@) == d2.member("theme"@));
        assert(document.member("theme"@) == d3.member("theme"@));
        assert(document.member("themeMode"@) == d3.member("themeMode"@));
    }
}

/// What `Path::with_file_name` makes of a path and a file name.
pub uninterp spec fn path_with_file_name(path: Seq<char>, name: Seq<char>) -> Seq<char>;

/// `Path::with_file_name`, lossily converted to a `String`. The contract
/// names the result and says nothing of how `std` splits paths: the
/// separators and prefixes it knows depend on the target platform.
#[verifier::external_body]
fn with_file_name(path: &str, name: &str) -> (r: String)
    ensures
        r@ == path_with_file_name(path@, name@),
{
    std::path::Path::new(path).with_file_name(name).to_string_lossy().into_owned()
}

/// A path's file name, empty when it has none.
pub open spec fn file_name_or_empty(path: Seq<char>) -> Seq<char> {
    match path_file_name(path) {
        Some(n) => n,
        None => Seq::empty(),
    }
}

/// `settings.json` → `settings.json.corrupt-<stamp>` beside it: a file that
/// exists but cannot be parsed is kept for manual recovery.
pub fn quarantined_settings_path(path: &str, stamp: &str) -> (r: String)
    ensures
        r@ == path_with_file_name(path@, file_name_or_empty(path@) + ".corrupt-"@ + stamp@),
{
    let name = match file_name_of(path) {
        Some(n) => n,
        None => String::new(),
    };
    let marked = concat_str(name.as_str(), ".corrupt-");
    let full = concat_str(marked.as_str(), stamp);
    with_file_name(path, full.as_str())
}

/// The same-directory temporary file a settings write goes through:
/// `<name>.<pid>.<stamp>.tmp`.
pub fn temporary_settings_path(path: &str, pid: &str, stamp: &str) -> (r: String)
    ensures
        r@ == path_with_file_name(
            path@,
            file_name_or_empty(path@) + "."@ + pid@ + "."@ + stamp@ + ".tmp"@,
        ),
{
    let name = match file_name_of(path) {
        Some(n) => n,
        None => String::new(),
    };
    let a = concat_str(name.as_str(), ".");
    let b = concat_str(a.as_str(), pid);
    let c = concat_str(b.as_str(), ".");
    let d = concat_str(c.as_str(), stamp);
    let e = concat_str(d.as_str(), ".tmp");
    with_file_name(path, e.as_str())
}

/// Model ids of a host catalog snapshot: plain strings, or the `id` of
/// objects that carry one; anything else is skipped.
pub open spec fn catalog_ids(items: Seq<Json>) -> Seq<Seq<char>>
    decreases items.len(),
{
    if items.len() == 0 {
        Seq::empty()
    } else {
        let rest = catalog_ids(items.drop_last());
        match items.last() {
            Json::Str(s) => rest.push(s@),
            Json::Object(_) => match str_member(items.last(), "id"@) {
                Some(id) => rest.push(id),
                None => rest,
            },
            _ => rest,
        }
    }
}

/// The model ids of a host catalog snapshot, `["model-id", …]` or
/// `[{"id": …}, …]`; none when it is no array or names no model.
pub fn host_catalog_models(value: &Json) -> (r: Option<Vec<String>>)
    ensures
        match r {
            Some(ids) => value.items() matches Some(items) && ids@.map_values(|s: String| s@) == catalog_ids(
                items,
            ) && ids@.len() > 0,
            None => match value.items() {
                Some(items) => catalog_ids(items).len() == 0,
                None => true,
            },
        },
{
    let items = match value.as_array() {
        Some(items) => items,
        None => {
            return None;
        },
    };
    let mut out: Vec<String> = Vec::new();
    let mut i: usize = 0;
    while i < items.len()
        invariant
            i <= items.len(),
            out@.map_values(|s: String| s@) == catalog_ids(items@.take(i as int)),
        decreases items.len() - i,
    {
        let ghost before = out@.map_values(|s: String| s@);
        assert(items@.take(i + 1).drop_last() =~= items@.take(i as int));
        assert(items@.take(i + 1).last() == items@[i as int]);
        match &items[i] {
            Json::Str(s) => {
                out.push(s.clone());
                assert(out@.map_values(|s: String| s@) =~= before.push(s@));
            },
            Json::Object(_) => {
                if let Some(id) = str_member_of(&items[i], "id") {
                    out.push(id.to_owned());
                    assert(out@.map_values(|s: String| s@) =~= before.push(id@));
                }
            },
            _ => {},
        }
        i = i + 1;
    }
    assert(items@.take(items.len() as int) =~= items@);
    if out.len() == 0 {
        None
    } else {
        Some(out)
    }
}

/// The settings document made from a file's text (`None` for no file): the
/// parsed text when it is a JSON object, else an empty object — and a file
/// with content that gives no object is quarantined.
pub fn settings_document_text(existing: Option<&str>) -> (r: SettingsDocument)
    ensures
        ({
            let parsed = crate::harness::settings_of_text(existing);
            &&& (parsed matches Some(v) && v is Object) ==> (r.document == parsed->0 && !r.quarantine)
            &&& !(parsed matches Some(v) && v is Object) ==> (r.document.entries() == Some(Seq::<(String, Json)>::empty())
                && r.quarantine == (existing matches Some(t) && !is_blank(t@)))
        }),
{
    let parsed = crate::json::parse_file_text(existing);
    settings_document(existing, parsed)
}

/// The model ids of a host catalog snapshot given as JSON text; none when
/// the text is no JSON, no array, or names no model.
pub fn host_catalog_models_text(raw: &str) -> (r: Option<Vec<String>>)
    ensures
        match crate::json::json_document(raw@) {
            None => r is None,
            Some(value) => match r {
                Some(ids) => value.items() matches Some(items) && ids@.map_values(|s: String| s@)
                    == catalog_ids(items) && ids@.len() > 0,
                None => match value.items() {
                    Some(items) => catalog_ids(items).len() == 0,
                    None => true,
                },
            },
        },
{
    match crate::json::parse_json(raw) {
        Some(value) => host_catalog_models(&value),
        None => None,
    }
}

} // verus!
