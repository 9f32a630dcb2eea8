//! What plugin notifications change: a refreshed select form keeps the
//! user's search and choice, a slot snapshot older than the one shown is
//! ignored, agent navigation requests of the right protocol move the strip,
//! and a refreshed model catalog re-lists the model picker.
use vstd::prelude::*;
use crate::json::Json;
use crate::picker::{SelectOverlay, SelectOption, PickerItem, select_initial_index, visible_of};
use crate::text::str_eq;

verus! {

/// The first option whose value is `value`.
pub open spec fn value_index(options: Seq<SelectOption>, value: Seq<char>) -> Option<int>
    decreases options.len(),
{
    if options.len() == 0 {
        None
    } else if options[0].value@ == value {
        Some(0)
    } else {
        match value_index(options.drop_first(), value) {
            Some(i) => Some(i + 1),
            None => None,
        }
    }
}

proof fn lemma_value_index(options: Seq<SelectOption>, value: Seq<char>, k: int)
    requires
        0 <= k <= options.len(),
        forall|j: int| 0 <= j < k ==> (#[trigger] options[j]).value@ != value,
    ensures
        k < options.len() && options[k].value@ == value ==> value_index(options, value) == Some(k),
        k == options.len() ==> value_index(options, value) is None,
    decreases k,
{
    if k > 0 {
        assert forall|j: int| 0 <= j < k - 1 implies (#[trigger] options.drop_first()[j]).value@ != value by {
            assert(options.drop_first()[j] == options[j + 1]);
        }
        if k < options.len() {
            assert(options.drop_first()[k - 1] == options[k]);
        }
        lemma_value_index(options.drop_first(), value, k - 1);
    }
}

fn find_value(options: &Vec<SelectOption>, value: &str) -> (r: Option<usize>)
    ensures
        match r {
            Some(i) => value_index(options@, value@) == Some(i as int) && i < options.len(),
            None => value_index(options@, value@) is None,
        },
{
    let mut i: usize = 0;
    let mut found = false;
    while i < options.len() && !found
        invariant
            i <= options.len(),
            found ==> i < options.len() && options@[i as int].value@ == value@,
            forall|j: int| 0 <= j < i ==> (#[trigger] options@[j]).value@ != value@,
        decreases options.len() - i + (if found { 0int } else { 1int }),
    {
        if str_eq(options[i].value.as_str(), value) {
            found = true;
        } else {
            i = i + 1;
        }
    }
    proof {
        lemma_value_index(options@, value@, i as int);
    }
    if found {
        Some(i)
    } else {
        None
    }
}

/// The highlight a refreshed form starts on before the search settles:
/// the option of the previous form's value when it is still offered, else
/// the form's own initial option.
pub open spec fn carried_sel(select: SelectOverlay, initial: int, previous: SelectOverlay) -> int {
    match value_index(select.options@, previous.value@) {
        Some(i) => i,
        None => initial,
    }
}

/// The search a refreshed form keeps: the previous form's, when searchable.
pub open spec fn carried_query(select: SelectOverlay, previous: SelectOverlay) -> Seq<char> {
    if select.searchable { previous.query@ } else { select.query@ }
}

/// A plugin's select form replacing the one on screen. `None` when the new
/// form is malformed or no option holds its value. A refresh of the same
/// form keeps the user's search and, while it is still offered, the value
/// the user had on; the highlight then settles on a shown option.
pub fn adopt_select(select: SelectOverlay, previous: Option<&SelectOverlay>) -> (r: Option<SelectOverlay>)
    ensures
        match select_initial_index_spec(select) {
            None => r is None,
            Some(initial) => r matches Some(s) && s.options == select.options && s.id == select.id && s.title
                == select.title && s.searchable == select.searchable && match previous {
                Some(p) if p.id@ == select.id@ => {
                    let q = carried_query(select, *p);
                    let start = carried_sel(select, initial, *p);
                    let vis = visible_of(select.options@, select.searchable, q);
                    &&& s.query@ == q
                    &&& s.sel == if vis.contains(start as usize) || vis.len() == 0 { start as usize } else { vis[0] }
                    &&& s.sel < select.options.len() ==> s.value@ == select.options@[s.sel as int].value@
                },
                _ => s.query == select.query && s.sel == initial && s.value == select.value,
            },
        },
{
    let initial = match select_initial_index(&select) {
        Some(i) => {
            proof {
                lemma_value_index(select.options@, select.value@, i as int);
            }
            i
        },
        None => {
            proof {
                if crate::picker::select_ok(select) {
                    lemma_value_index(select.options@, select.value@, select.options@.len() as int);
                }
            }
            return None;
        },
    };
    let mut s = select;
    s.sel = initial;
    match previous {
        Some(p) => {
            if str_eq(p.id.as_str(), s.id.as_str()) {
                if s.searchable {
                    s.query = p.query.clone();
                }
                if let Some(i) = find_value(&s.options, p.value.as_str()) {
                    s.sel = i;
                }
                s.reconcile_search();
            }
        },
        None => {},
    }
    Some(s)
}

/// The initial option of a form, as `select_initial_index` finds it.
pub open spec fn select_initial_index_spec(select: SelectOverlay) -> Option<int> {
    if crate::picker::select_ok(select) {
        match value_index(select.options@, select.value@) {
            Some(i) => Some(i),
            None => None,
        }
    } else {
        None
    }
}

/// Whether a slot snapshot with revision `next` is older than (or as old
/// as) the one shown, whose revision is `shown` (`None` when no snapshot is
/// shown for the slot).
pub open spec fn slot_stale_of(next: Option<u64>, shown: Option<Option<u64>>) -> bool {
    match (next, shown) {
        (Some(n), Some(Some(p))) => n <= p,
        _ => false,
    }
}

/// Whether a slot snapshot is stale; snapshots without a revision always
/// replace the one shown.
pub fn slot_stale(next: Option<u64>, shown: Option<Option<u64>>) -> (r: bool)
    ensures
        r == slot_stale_of(next, shown),
{
    match (next, shown) {
        (Some(n), Some(Some(p))) => n <= p,
        _ => false,
    }
}

/// An agent strip request from a plugin.
#[derive(Clone, Copy, Debug, PartialEq, Eq, Structural)]
pub enum NavAction {
    Begin,
    Previous,
    Next,
    Confirm,
    Cancel,
}

pub open spec fn nav_of(action: Seq<char>) -> Option<NavAction> {
    if action == "begin"@ {
        Some(NavAction::Begin)
    } else if action == "previous"@ {
        Some(NavAction::Previous)
    } else if action == "next"@ {
        Some(NavAction::Next)
    } else if action == "confirm"@ {
        Some(NavAction::Confirm)
    } else if action == "cancel"@ {
        Some(NavAction::Cancel)
    } else {
        None
    }
}

/// The strip request in a navigation notification: only one speaking
/// `protocol`, with a known `action`.
pub open spec fn nav_request_of(params: Json, protocol: u64) -> Option<NavAction> {
    match params.member("protocol"@) {
        Some(p) => if p.u64_view() == Some(protocol) {
            match params.member("action"@) {
                Some(a) => match a.str_view() {
                    Some(s) => nav_of(s),
                    None => None,
                },
                None => None,
            }
        } else {
            None
        },
        None => None,
    }
}

/// The strip request in a navigation notification.
pub fn nav_request(params: &Json, protocol: u64) -> (r: Option<NavAction>)
    ensures
        r == nav_request_of(*params, protocol),
{
    let p = match params.get("protocol") {
        Some(p) => p,
        None => {
            return None;
        },
    };
    match p.as_u64() {
        Some(v) => if v != protocol {
            return None;
        },
        None => {
            return None;
        },
    }
    let a = match params.get("action") {
        Some(a) => a,
        None => {
            return None;
        },
    };
    let s = match a.as_str() {
        Some(s) => s,
        None => {
            return None;
        },
    };
    if str_eq(s, "begin") {
        Some(NavAction::Begin)
    } else if str_eq(s, "previous") {
        Some(NavAction::Previous)
    } else if str_eq(s, "next") {
        Some(NavAction::Next)
    } else if str_eq(s, "confirm") {
        Some(NavAction::Confirm)
    } else if str_eq(s, "cancel") {
        Some(NavAction::Cancel)
    } else {
        None
    }
}

/// The transcript a selection notification names: only one speaking
/// `protocol`, with a string `id`.
pub open spec fn select_request_of(params: Json, protocol: u64) -> Option<Seq<char>> {
    match params.member("protocol"@) {
        Some(p) => if p.u64_view() == Some(protocol) {
            match params.member("id"@) {
                Some(a) => a.str_view(),
                None => None,
            }
        } else {
            None
        },
        None => None,
    }
}

/// The agent a selection notification names.
pub fn select_request(params: &Json, protocol: u64) -> (r: Option<String>)
    ensures
        match r {
            Some(s) => select_request_of(*params, protocol) == Some(s@),
            None => select_request_of(*params, protocol) is None,
        },
{
    let p = match params.get("protocol") {
        Some(p) => p,
        None => {
            return None;
        },
    };
    match p.as_u64() {
        Some(v) => if v != protocol {
            return None;
        },
        None => {
            return None;
        },
    }
    let a = match params.get("id") {
        Some(a) => a,
        None => {
            return None;
        },
    };
    match a.as_str() {
        Some(s) => Some(s.to_owned()),
        None => None,
    }
}

/// A model as the agent's catalog describes it.
pub struct CatalogEntry {
    pub id: String,
    pub name: String,
    pub provider: String,
    pub vision: bool,
}

/// A catalog model's picker row: labelled by its id, noted with provider,
/// name and vision support, and tagged with its provider.
pub open spec fn catalog_row(m: CatalogEntry) -> (Seq<char>, Seq<char>, Seq<char>, Option<Seq<char>>) {
    (
        m.id@,
        m.id@,
        m.provider@ + " · "@ + m.name@ + if m.vision { " · vision"@ } else { Seq::empty() },
        Some(m.provider@),
    )
}

pub open spec fn item_view(i: PickerItem) -> (Seq<char>, Seq<char>, Seq<char>, Option<Seq<char>>) {
    (i.id@, i.label@, i.meta@, match i.provider {
        Some(p) => Some(p@),
        None => None,
    })
}

/// The first row whose id is `id` and, when `provider` is given, whose
/// provider is it.
pub open spec fn row_match(rows: Seq<(Seq<char>, Seq<char>, Seq<char>, Option<Seq<char>>)>, id: Seq<char>, provider: Option<Seq<char>>) -> Option<int>
    decreases rows.len(),
{
    if rows.len() == 0 {
        None
    } else if rows[0].0 == id && (provider is None || rows[0].3 == provider) {
        Some(0)
    } else {
        match row_match(rows.drop_first(), id, provider) {
            Some(i) => Some(i + 1),
            None => None,
        }
    }
}

/// The model picker's rows from the agent's catalog, and the highlight:
/// the model in effect under the configured provider, else under any
/// provider, else the first row.
pub fn catalog_model_items(models: &Vec<CatalogEntry>, current: &str, provider: &str) -> (r: (Vec<PickerItem>, usize))
    ensures
        r.0@.map_values(|i: PickerItem| item_view(i)) == models@.map_values(|m: CatalogEntry| catalog_row(m)),
        r.1 as int == match row_match(models@.map_values(|m: CatalogEntry| catalog_row(m)), current@, Some(provider@)) {
            Some(i) => i,
            None => match row_match(models@.map_values(|m: CatalogEntry| catalog_row(m)), current@, None) {
                Some(i) => i,
                None => 0,
            },
        },
{
    let ghost rows = models@.map_values(|m: CatalogEntry| catalog_row(m));
    let mut items: Vec<PickerItem> = Vec::new();
    let mut i: usize = 0;
    while i < models.len()
        invariant
            i <= models.len(),
            rows == models@.map_values(|m: CatalogEntry| catalog_row(m)),
            items@.map_values(|x: PickerItem| item_view(x)) == rows.take(i as int),
        decreases models.len() - i,
    {
        let m = &models[i];
        let a = crate::text::concat_str(m.provider.as_str(), " · ");
        let b = crate::text::concat_str(a.as_str(), m.name.as_str());
        let meta = if m.vision {
            crate::text::concat_str(b.as_str(), " · vision")
        } else {
            b
        };
        let ghost before = items@.map_values(|x: PickerItem| item_view(x));
        items.push(PickerItem { id: m.id.clone(), label: m.id.clone(), meta, provider: Some(m.provider.clone()) });
        proof {
            assert(rows[i as int] == catalog_row(models@[i as int]));
            assert(rows.take(i + 1) =~= rows.take(i as int).push(rows[i as int]));
            assert(items@.map_values(|x: PickerItem| item_view(x)) =~= before.push(rows[i as int]));
        }
        i = i + 1;
    }
    assert(rows.take(models.len() as int) =~= rows);
    let exact = first_row(&items, current, Some(provider));
    let sel = match exact {
        Some(k) => k,
        None => match first_row(&items, current, None) {
            Some(k) => k,
            None => 0,
        },
    };
    (items, sel)
}

fn first_row(items: &Vec<PickerItem>, id: &str, provider: Option<&str>) -> (r: Option<usize>)
    ensures
        ({
            let pv = match provider {
                Some(p) => Some(p@),
                None => None,
            };
            match r {
                Some(k) => row_match(items@.map_values(|x: PickerItem| item_view(x)), id@, pv) == Some(k as int),
                None => row_match(items@.map_values(|x: PickerItem| item_view(x)), id@, pv) is None,
            }
        }),
{
    let ghost rows = items@.map_values(|x: PickerItem| item_view(x));
    let ghost pv = match provider {
        Some(p) => Some(p@),
        None => None::<Seq<char>>,
    };
    let mut k: usize = 0;
    assert(rows.skip(0) =~= rows);
    while k < items.len()
        invariant
            k <= items.len(),
            rows == items@.map_values(|x: PickerItem| item_view(x)),
            pv == match provider {
                Some(p) => Some(p@),
                None => None::<Seq<char>>,
            },
            row_match(rows, id@, pv) == match row_match(rows.skip(k as int), id@, pv) {
                Some(a) => Some(a + k),
                None => None,
            },
        decreases items.len() - k,
    {
        let ghost rest = rows.skip(k as int);
        assert(rest[0] == rows[k as int]);
        assert(rest.drop_first() =~= rows.skip(k + 1));
        let it = &items[k];
        let id_ok = str_eq(it.id.as_str(), id);
        let prov_ok = match provider {
            None => true,
            Some(p) => match &it.provider {
                Some(q) => str_eq(q.as_str(), p),
                None => false,
            },
        };
        if id_ok && prov_ok {
            return Some(k);
        }
        k = k + 1;
    }
    None
}

} // verus!
