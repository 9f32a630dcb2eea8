//! The pickers the shell opens from what the session knows: models,
//! reasoning efforts, agent presets and permission modes, each with its
//! highlight on the entry in effect; and which stored session a `/resume`
//! argument names.
use vstd::prelude::*;
use crate::agents::{index_in, item_row};
use crate::picker::{Picker, PickerItem, PickerKind};
use crate::slash_catalog::{
    CatalogPreset, model_presets, stock_models, agent_modes, stock_agent_modes, permission_presets,
    stock_permissions, permission_label, permission_label_of, permission_picker_items, preset_mark,
};
use crate::text::{str_eq, concat_str, chars_of, starts_with, has_prefix};
use crate::harness::{HarnessEntry, argv_view, join};
use crate::options::UiPluginRow;

verus! {

pub open spec fn item_ids(items: Seq<PickerItem>) -> Seq<Seq<char>> {
    items.map_values(|i: PickerItem| i.id@)
}

pub open spec fn rows_of(items: Seq<PickerItem>) -> Seq<(Seq<char>, Seq<char>, Seq<char>)> {
    items.map_values(|i: PickerItem| item_row(i))
}

/// The highlight on the first row whose id is `id`, else on the first row.
pub open spec fn sel_on(items: Seq<PickerItem>, id: Seq<char>) -> int {
    match index_in(item_ids(items), id) {
        Some(i) => i,
        None => 0,
    }
}

/// The first row whose id is `id`.
pub fn position_of_id(items: &Vec<PickerItem>, id: &str) -> (r: Option<usize>)
    ensures
        match r {
            Some(i) => index_in(item_ids(items@), id@) == Some(i as int),
            None => index_in(item_ids(items@), id@) is None,
        },
{
    let ghost ids = item_ids(items@);
    let mut i: usize = 0;
    let mut found = false;
    while i < items.len() && !found
        invariant
            i <= items.len(),
            ids == item_ids(items@),
            found ==> i < items.len() && ids[i as int] == id@,
            forall|j: int| 0 <= j < i ==> ids[j] != id@,
        decreases items.len() - i + (if found { 0int } else { 1int }),
    {
        if str_eq(items[i].id.as_str(), id) {
            found = true;
        } else {
            i = i + 1;
        }
    }
    proof {
        crate::agents::lemma_index_in(ids, id@, i as int);
    }
    if found {
        Some(i)
    } else {
        None
    }
}

pub(crate) fn sel_for(items: &Vec<PickerItem>, id: &str) -> (r: usize)
    ensures
        r as int == sel_on(items@, id@),
{
    match position_of_id(items, id) {
        Some(i) => i,
        None => 0,
    }
}

/// A row whose label is its id, with no note.
pub open spec fn bare(id: Seq<char>) -> (Seq<char>, Seq<char>, Seq<char>) {
    (id, id, Seq::empty())
}

fn bare_item(id: &str) -> (r: PickerItem)
    ensures
        item_row(r) == bare(id@),
        r.provider is None,
{
    PickerItem { id: id.to_owned(), label: id.to_owned(), meta: String::new(), provider: None }
}

/// The model picker's ids: the host catalog snapshot (else the stock
/// models), with the model in effect put first when it is missing.
pub open spec fn model_ids(host: Option<Seq<Seq<char>>>, current: Seq<char>) -> Seq<Seq<char>> {
    let ids = match host {
        Some(v) => v,
        None => stock_models(),
    };
    if ids.contains(current) { ids } else { seq![current] + ids }
}

pub open spec fn opt_ids(o: Option<Vec<String>>) -> Option<Seq<Seq<char>>> {
    match o {
        Some(v) => Some(v@.map_values(|s: String| s@)),
        None => None,
    }
}

/// The model picker, its highlight on the model in effect.
pub fn model_picker(host_models: Option<Vec<String>>, current: &str, title: &str) -> (r: Picker)
    ensures
        r.kind == PickerKind::Model,
        r.title@ == title@,
        r.offset == 0,
        rows_of(r.items@) == model_ids(opt_ids(host_models), current@).map_values(|id: Seq<char>| bare(id)),
        forall|k: int| 0 <= k < r.items.len() ==> (#[trigger] r.items@[k]).provider is None,
        r.sel as int == sel_on(r.items@, current@),
        index_in(item_ids(r.items@), current@) is Some,
{
    let ghost host_view = opt_ids(host_models);
    let ghost ids = match host_view {
        Some(v) => v,
        None => stock_models(),
    };
    let mut base: Vec<PickerItem> = Vec::new();
    match host_models {
        Some(v) => {
            let mut i: usize = 0;
            while i < v.len()
                invariant
                    i <= v.len(),
                    ids == v@.map_values(|s: String| s@),
                    rows_of(base@) == ids.take(i as int).map_values(|id: Seq<char>| bare(id)),
                    forall|k: int| 0 <= k < base.len() ==> (#[trigger] base@[k]).provider is None,
                decreases v.len() - i,
            {
                let ghost before = rows_of(base@);
                base.push(bare_item(v[i].as_str()));
                assert(ids.take(i + 1) =~= ids.take(i as int).push(ids[i as int]));
                assert(rows_of(base@) =~= before.push(bare(ids[i as int])));
                i = i + 1;
            }
            assert(ids.take(v.len() as int) =~= ids);
        },
        None => {
            let m = model_presets();
            let mut i: usize = 0;
            while i < m.len()
                invariant
                    i <= m.len(),
                    ids == m@.map_values(|s: &'static str| s@),
                    rows_of(base@) == ids.take(i as int).map_values(|id: Seq<char>| bare(id)),
                    forall|k: int| 0 <= k < base.len() ==> (#[trigger] base@[k]).provider is None,
                decreases m.len() - i,
            {
                let ghost before = rows_of(base@);
                base.push(bare_item(m[i]));
                assert(ids.take(i + 1) =~= ids.take(i as int).push(ids[i as int]));
                assert(rows_of(base@) =~= before.push(bare(ids[i as int])));
                i = i + 1;
            }
            assert(ids.take(m.len() as int) =~= ids);
        },
    }
    assert(item_ids(base@) =~= ids) by {
        assert forall|k: int| 0 <= k < base.len() implies item_ids(base@)[k] == ids[k] by {
            assert(rows_of(base@)[k] == bare(ids[k]));
        }
    }
    let items: Vec<PickerItem> = match position_of_id(&base, current) {
        Some(_) => {
            proof {
                crate::agents::lemma_index_in_range(ids, current@);
            }
            base
        },
        None => {
            proof {
                crate::agents::lemma_index_in_range(ids, current@);
            }
            let mut out: Vec<PickerItem> = Vec::new();
            out.push(bare_item(current));
            let ghost head = rows_of(out@);
            let mut rest = base;
            out.append(&mut rest);
            assert(rows_of(out@) =~= head + rows_of(base@));
            out
        },
    };
    proof {
        assert(item_ids(items@) =~= model_ids(host_view, current@)) by {
            assert forall|k: int| 0 <= k < items.len() implies item_ids(items@)[k] == model_ids(host_view, current@)[k] by {
                assert(rows_of(items@)[k] == bare(model_ids(host_view, current@)[k]));
            }
        }
        crate::agents::lemma_index_in_range(model_ids(host_view, current@), current@);
    }
    let sel = sel_for(&items, current);
    Picker { kind: PickerKind::Model, title: title.to_owned(), sel, items, offset: 0 }
}

/// The reasoning effort rows: the advertised efforts (the model's default
/// noted), else `off`, `high` and `max`.
pub open spec fn effort_rows(efforts: Seq<Seq<char>>, default: Option<Seq<char>>, default_note: Seq<char>) -> Seq<(Seq<char>, Seq<char>, Seq<char>)> {
    if efforts.len() > 0 {
        efforts.map_values(
            |e: Seq<char>| (e, e, if default == Some(e) { default_note } else { Seq::<char>::empty() }),
        )
    } else {
        seq![bare("off"@), bare("high"@), bare("max"@)]
    }
}

/// Where the effort picker's highlight starts: on the effort in effect,
/// else on the model's default, else on the first row.
pub open spec fn effort_sel(items: Seq<PickerItem>, current: Option<Seq<char>>, default: Option<Seq<char>>) -> int {
    match current {
        Some(c) if index_in(item_ids(items), c) is Some => index_in(item_ids(items), c)->0,
        _ => match default {
            Some(d) if index_in(item_ids(items), d) is Some => index_in(item_ids(items), d)->0,
            _ => 0,
        },
    }
}

pub open spec fn opt_view(o: Option<String>) -> Option<Seq<char>> {
    match o {
        Some(s) => Some(s@),
        None => None,
    }
}

/// The reasoning effort picker.
pub fn effort_picker(
    efforts: Vec<String>,
    default: Option<String>,
    current: Option<String>,
    default_note: &str,
    title: &str,
) -> (r: Picker)
    ensures
        r.kind == PickerKind::Effort,
        r.title@ == title@,
        r.offset == 0,
        rows_of(r.items@) == effort_rows(efforts@.map_values(|s: String| s@), opt_view(default), default_note@),
        forall|k: int| 0 <= k < r.items.len() ==> (#[trigger] r.items@[k]).provider is None,
        r.sel as int == effort_sel(r.items@, opt_view(current), opt_view(default)),
{
    let ghost ev = efforts@.map_values(|s: String| s@);
    let ghost dv = opt_view(default);
    let mut items: Vec<PickerItem> = Vec::new();
    if efforts.len() > 0 {
        let mut i: usize = 0;
        while i < efforts.len()
            invariant
                i <= efforts.len(),
                ev == efforts@.map_values(|s: String| s@),
                dv == opt_view(default),
                rows_of(items@) == effort_rows(ev.take(i as int), dv, default_note@).take(i as int),
                rows_of(items@) == ev.take(i as int).map_values(
                    |e: Seq<char>| (e, e, if dv == Some(e) { default_note@ } else { Seq::<char>::empty() }),
                ),
                forall|k: int| 0 <= k < items.len() ==> (#[trigger] items@[k]).provider is None,
            decreases efforts.len() - i,
        {
            let ghost before = rows_of(items@);
            let e = &efforts[i];
            let is_default = match &default {
                Some(d) => str_eq(d.as_str(), e.as_str()),
                None => false,
            };
            let meta = if is_default {
                default_note.to_owned()
            } else {
                String::new()
            };
            items.push(PickerItem { id: e.clone(), label: e.clone(), meta, provider: None });
            proof {
                assert(ev.take(i + 1) =~= ev.take(i as int).push(ev[i as int]));
                assert(rows_of(items@) =~= before.push(
                    (ev[i as int], ev[i as int], if dv == Some(ev[i as int]) { default_note@ } else { Seq::<char>::empty() }),
                ));
                if i + 1 > 0 {
                    assert(effort_rows(ev.take(i + 1), dv, default_note@).take(i + 1) =~= rows_of(items@));
                }
            }
            i = i + 1;
        }
        assert(ev.take(efforts.len() as int) =~= ev);
    } else {
        items.push(bare_item("off"));
        items.push(bare_item("high"));
        items.push(bare_item("max"));
        assert(rows_of(items@) =~= seq![bare("off"@), bare("high"@), bare("max"@)]);
    }
    let from_current = match &current {
        Some(c) => position_of_id(&items, c.as_str()),
        None => None,
    };
    let sel: usize = match from_current {
        Some(i) => i,
        None => {
            let from_default = match &default {
                Some(d) => position_of_id(&items, d.as_str()),
                None => None,
            };
            match from_default {
                Some(i) => i,
                None => 0,
            }
        },
    };
    Picker { kind: PickerKind::Effort, title: title.to_owned(), sel, items, offset: 0 }
}

/// The agent preset rows: the demo's stock modes, else the advertised
/// presets (a broken one noted as such).
pub open spec fn mode_rows(demo: bool, presets: Seq<CatalogPreset>) -> Seq<(Seq<char>, Seq<char>, Seq<char>)> {
    if demo {
        stock_agent_modes()
    } else {
        presets.map_values(
            |p: CatalogPreset| (p.id@, p.name@, if p.broken { "⚠ broken · "@ + p.description@ } else { p.description@ }),
        )
    }
}

/// The agent preset picker, its highlight on the preset in effect.
pub fn mode_picker(demo: bool, presets: &Vec<CatalogPreset>, current: &str, title: &str) -> (r: Picker)
    ensures
        r.kind == PickerKind::Mode,
        r.title@ == title@,
        r.offset == 0,
        rows_of(r.items@) == mode_rows(demo, presets@),
        forall|k: int| 0 <= k < r.items.len() ==> (#[trigger] r.items@[k]).provider is None,
        r.sel as int == sel_on(r.items@, current@),
{
    let mut items: Vec<PickerItem> = Vec::new();
    if demo {
        let modes = agent_modes();
        let mut i: usize = 0;
        while i < modes.len()
            invariant
                i <= modes.len(),
                modes@.map_values(|t: (&'static str, &'static str, &'static str)| (t.0@, t.1@, t.2@))
                    == stock_agent_modes(),
                rows_of(items@) == stock_agent_modes().take(i as int),
                forall|k: int| 0 <= k < items.len() ==> (#[trigger] items@[k]).provider is None,
            decreases modes.len() - i,
        {
            let ghost before = rows_of(items@);
            let (id, name, desc) = modes[i];
            items.push(PickerItem { id: id.to_owned(), label: name.to_owned(), meta: desc.to_owned(), provider: None });
            proof {
                let t = modes@[i as int];
                assert(stock_agent_modes()[i as int] == (t.0@, t.1@, t.2@));
                assert(stock_agent_modes().take(i + 1) =~= stock_agent_modes().take(i as int).push(
                    stock_agent_modes()[i as int],
                ));
                assert(rows_of(items@) =~= before.push((t.0@, t.1@, t.2@)));
            }
            i = i + 1;
        }
        assert(stock_agent_modes().take(modes.len() as int) =~= stock_agent_modes());
    } else {
        let mut i: usize = 0;
        while i < presets.len()
            invariant
                i <= presets.len(),
                rows_of(items@) == presets@.take(i as int).map_values(
                    |p: CatalogPreset| (p.id@, p.name@, if p.broken { "⚠ broken · "@ + p.description@ } else { p.description@ }),
                ),
                forall|k: int| 0 <= k < items.len() ==> (#[trigger] items@[k]).provider is None,
            decreases presets.len() - i,
        {
            let ghost before = rows_of(items@);
            let p = &presets[i];
            let meta = if p.broken {
                concat_str("⚠ broken · ", p.description.as_str())
            } else {
                p.description.clone()
            };
            items.push(PickerItem { id: p.id.clone(), label: p.name.clone(), meta, provider: None });
            proof {
                assert(presets@.take(i + 1) =~= presets@.take(i as int).push(presets@[i as int]));
                assert(rows_of(items@) =~= before.push(
                    (p.id@, p.name@, if p.broken { "⚠ broken · "@ + p.description@ } else { p.description@ }),
                ));
            }
            i = i + 1;
        }
        assert(presets@.take(presets.len() as int) =~= presets@);
    }
    let sel = sel_for(&items, current);
    Picker { kind: PickerKind::Mode, title: title.to_owned(), sel, items, offset: 0 }
}

/// The permission rows: the advertised modes, else the stock presets; each
/// noted with its meaning and whether the session reported it or it is the
/// default in effect.
pub open spec fn permission_rows(choices: Seq<CatalogPreset>, reported: Option<Seq<char>>, current: Seq<char>) -> Seq<(Seq<char>, Seq<char>, Seq<char>)> {
    if choices.len() == 0 {
        stock_permissions().map_values(
            |p: (Seq<char>, Seq<char>)| (p.0, permission_label_of(p.0), p.1 + preset_mark(p.0, reported, current)),
        )
    } else {
        choices.map_values(
            |p: CatalogPreset| (p.id@, permission_label_of(p.id@), p.description@ + preset_mark(p.id@, reported, current)),
        )
    }
}

/// The permission picker, its highlight on the mode in effect.
pub fn permission_picker(choices: &Vec<CatalogPreset>, reported: Option<&str>, current: &str, title: &str) -> (r: Picker)
    ensures
        r.kind == PickerKind::Permission,
        r.title@ == title@,
        r.offset == 0,
        rows_of(r.items@) == permission_rows(choices@, match reported {
            Some(s) => Some(s@),
            None => None,
        }, current@),
        forall|k: int| 0 <= k < r.items.len() ==> (#[trigger] r.items@[k]).provider is None,
        r.sel as int == sel_on(r.items@, current@),
{
    let ghost rep = match reported {
        Some(s) => Some(s@),
        None => None::<Seq<char>>,
    };
    let mut items: Vec<PickerItem> = Vec::new();
    if choices.len() == 0 {
        let stock = permission_presets();
        let mut i: usize = 0;
        while i < stock.len()
            invariant
                i <= stock.len(),
                stock@.map_values(|t: (&'static str, &'static str)| (t.0@, t.1@)) == stock_permissions(),
                rep == match reported {
                    Some(s) => Some(s@),
                    None => None::<Seq<char>>,
                },
                rows_of(items@) == stock_permissions().take(i as int).map_values(
                    |p: (Seq<char>, Seq<char>)| (p.0, permission_label_of(p.0), p.1 + preset_mark(p.0, rep, current@)),
                ),
                forall|k: int| 0 <= k < items.len() ==> (#[trigger] items@[k]).provider is None,
            decreases stock.len() - i,
        {
            let ghost before = rows_of(items@);
            let (id, desc) = stock[i];
            let is_reported = match reported {
                Some(r) => str_eq(r, id),
                None => false,
            };
            let mark = if is_reported {
                " · current"
            } else if reported.is_none() && str_eq(id, current) {
                " · default"
            } else {
                ""
            };
            proof {
                reveal_strlit("");
            }
            let meta = concat_str(desc, mark);
            items.push(PickerItem { id: id.to_owned(), label: permission_label(id), meta, provider: None });
            proof {
                let t = stock@[i as int];
                assert(stock_permissions()[i as int] == (t.0@, t.1@));
                assert(stock_permissions().take(i + 1) =~= stock_permissions().take(i as int).push(
                    stock_permissions()[i as int],
                ));
                assert(rows_of(items@) =~= before.push(
                    (t.0@, permission_label_of(t.0@), t.1@ + preset_mark(t.0@, rep, current@)),
                ));
            }
            i = i + 1;
        }
        assert(stock_permissions().take(stock.len() as int) =~= stock_permissions());
    } else {
        items = permission_picker_items(choices, reported, current);
        assert(rows_of(items@) =~= permission_rows(choices@, rep, current@));
        assert forall|k: int| 0 <= k < items.len() implies (#[trigger] items@[k]).provider is None by {
            let _ = choices@[k];
        }
    }
    let sel = sel_for(&items, current);
    Picker { kind: PickerKind::Permission, title: title.to_owned(), sel, items, offset: 0 }
}

/// A harness row's note: its command line, marked when it is the harness
/// in effect.
pub open spec fn harness_meta(e: HarnessEntry, current: Option<Seq<char>>) -> Seq<char> {
    let command = join(argv_view(e.harness@), seq![' ']);
    if current == Some(e.id@) { command + " · active"@ } else { command }
}

/// The harness picker (none without harnesses), on the harness in effect.
pub fn harness_picker(entries: &Vec<HarnessEntry>, current: Option<&str>, title: &str) -> (r: Option<Picker>)
    ensures
        entries.len() == 0 ==> r is None,
        entries.len() > 0 ==> (r matches Some(p) && {
            let cur = match current {
                Some(c) => Some(c@),
                None => None,
            };
            &&& p.kind == PickerKind::Harness
            &&& p.title@ == title@
            &&& p.offset == 0
            &&& p.items.len() == entries.len()
            &&& forall|k: int| 0 <= k < entries.len() ==> {
                let e = #[trigger] entries@[k];
                &&& p.items@[k].id@ == e.id@
                &&& p.items@[k].label@ == e.label@
                &&& p.items@[k].meta@ == harness_meta(e, cur)
                &&& p.items@[k].provider is None
            }
            &&& p.sel as int == match cur {
                Some(c) => sel_on(p.items@, c),
                None => 0,
            }
        }),
{
    if entries.len() == 0 {
        return None;
    }
    let ghost cur = match current {
        Some(c) => Some(c@),
        None => None::<Seq<char>>,
    };
    let mut items: Vec<PickerItem> = Vec::new();
    let mut i: usize = 0;
    while i < entries.len()
        invariant
            i <= entries.len(),
            items.len() == i,
            cur == match current {
                Some(c) => Some(c@),
                None => None::<Seq<char>>,
            },
            forall|k: int| 0 <= k < i ==> {
                let e = #[trigger] entries@[k];
                &&& items@[k].id@ == e.id@
                &&& items@[k].label@ == e.label@
                &&& items@[k].meta@ == harness_meta(e, cur)
                &&& items@[k].provider is None
            },
        decreases entries.len() - i,
    {
        let e = &entries[i];
        let command = e.command_text();
        let active = match current {
            Some(c) => str_eq(c, e.id.as_str()),
            None => false,
        };
        let meta = if active {
            concat_str(command.as_str(), " · active")
        } else {
            command
        };
        items.push(PickerItem { id: e.id.clone(), label: e.label.clone(), meta, provider: None });
        i = i + 1;
    }
    let sel = match current {
        Some(c) => sel_for(&items, c),
        None => 0,
    };
    Some(Picker { kind: PickerKind::Harness, title: title.to_owned(), sel, items, offset: 0 })
}

/// What `/harness <id>` does.
#[derive(Debug, PartialEq, Eq)]
pub enum HarnessSwitch {
    /// No harness has that id.
    Unknown,
    /// The harness is already in effect (its label).
    AlreadyActive(String),
    /// Switch to the harness at this position.
    Switch(usize),
}

/// The first harness with id `id`.
pub open spec fn harness_at(entries: Seq<HarnessEntry>, id: Seq<char>) -> Option<int>
    decreases entries.len(),
{
    if entries.len() == 0 {
        None
    } else if entries[0].id@ == id {
        Some(0)
    } else {
        match harness_at(entries.drop_first(), id) {
            Some(i) => Some(i + 1),
            None => None,
        }
    }
}

/// What `/harness <id>` does: an unknown id is refused, the harness in
/// effect is left alone, any other is switched to.
pub fn harness_switch(entries: &Vec<HarnessEntry>, current: Option<&str>, id: &str) -> (r: HarnessSwitch)
    ensures
        match harness_at(entries@, crate::text::trim(id@)) {
            None => r == HarnessSwitch::Unknown,
            Some(i) => if current matches Some(c) && c@ == crate::text::trim(id@) {
                r matches HarnessSwitch::AlreadyActive(l) && l@ == entries@[i].label@
            } else {
                r == HarnessSwitch::Switch(i as usize)
            },
        },
{
    let key = crate::text::trim_string(id);
    let mut i: usize = 0;
    assert(entries@.skip(0) =~= entries@);
    while i < entries.len()
        invariant
            i <= entries.len(),
            key@ == crate::text::trim(id@),
            harness_at(entries@, key@) == match harness_at(entries@.skip(i as int), key@) {
                Some(a) => Some(a + i),
                None => None,
            },
        decreases entries.len() - i,
    {
        let ghost rest = entries@.skip(i as int);
        assert(rest[0] == entries@[i as int]);
        assert(rest.drop_first() =~= entries@.skip(i + 1));
        if str_eq(entries[i].id.as_str(), key.as_str()) {
            assert(harness_at(entries@, key@) == Some(i as int));
            let same = match current {
                Some(c) => str_eq(c, key.as_str()),
                None => false,
            };
            if same {
                let label = entries[i].label.clone();
                return HarnessSwitch::AlreadyActive(label);
            }
            return HarnessSwitch::Switch(i);
        }
        i = i + 1;
    }
    assert(entries@.skip(i as int) =~= Seq::<HarnessEntry>::empty());
    HarnessSwitch::Unknown
}

/// The UI plugin picker: each plugin noted with its source and status, the
/// highlight on the first active one.
pub fn ui_plugin_picker(plugins: &Vec<UiPluginRow>, title: &str) -> (r: Picker)
    ensures
        r.kind == PickerKind::UiPlugin,
        r.title@ == title@,
        r.offset == 0,
        r.items.len() == plugins.len(),
        forall|k: int| 0 <= k < plugins.len() ==> {
            let u = #[trigger] plugins@[k];
            &&& r.items@[k].id@ == u.id@
            &&& r.items@[k].label@ == u.label@
            &&& r.items@[k].meta@ == u.source@ + " · "@ + u.status@
            &&& r.items@[k].provider is None
        },
        (exists|k: int| 0 <= k < plugins.len() && plugins@[k].status@ == "active"@) ==> (r.sel < plugins.len()
            && plugins@[r.sel as int].status@ == "active"@ && forall|k: int|
            0 <= k < r.sel ==> plugins@[k].status@ != "active"@),
        !(exists|k: int| 0 <= k < plugins.len() && plugins@[k].status@ == "active"@) ==> r.sel == 0,
{
    let mut items: Vec<PickerItem> = Vec::new();
    let mut sel: Option<usize> = None;
    let mut i: usize = 0;
    while i < plugins.len()
        invariant
            i <= plugins.len(),
            items.len() == i,
            forall|k: int| 0 <= k < i ==> {
                let u = #[trigger] plugins@[k];
                &&& items@[k].id@ == u.id@
                &&& items@[k].label@ == u.label@
                &&& items@[k].meta@ == u.source@ + " · "@ + u.status@
                &&& items@[k].provider is None
            },
            match sel {
                Some(s) => s < i && plugins@[s as int].status@ == "active"@ && forall|k: int|
                    0 <= k < s ==> plugins@[k].status@ != "active"@,
                None => forall|k: int| 0 <= k < i ==> plugins@[k].status@ != "active"@,
            },
        decreases plugins.len() - i,
    {
        let u = &plugins[i];
        let a = concat_str(u.source.as_str(), " · ");
        let meta = concat_str(a.as_str(), u.status.as_str());
        let ghost before = items@;
        items.push(PickerItem { id: u.id.clone(), label: u.label.clone(), meta, provider: None });
        assert(items@[i as int].meta@ == u.source@ + " · "@ + u.status@);
        assert forall|k: int| 0 <= k < i + 1 implies {
            let w = #[trigger] plugins@[k];
            &&& items@[k].id@ == w.id@
            &&& items@[k].label@ == w.label@
            &&& items@[k].meta@ == w.source@ + " · "@ + w.status@
            &&& items@[k].provider is None
        } by {
            if k < i {
                assert(items@[k] == before[k]);
            }
        }
        if sel.is_none() && str_eq(u.status.as_str(), "active") {
            sel = Some(i);
        }
        i = i + 1;
    }
    let s = match sel {
        Some(s) => s,
        None => 0,
    };
    Picker { kind: PickerKind::UiPlugin, title: title.to_owned(), sel: s, items, offset: 0 }
}

/// A dynamic plugin's note in the plugin manager, by its status.
pub open spec fn cordis_meta(status: Seq<char>) -> Seq<char> {
    if status == "awaiting-approval"@ {
        "dynamic · awaiting approval · enter review"@
    } else if status == "running"@ || status == "waiting"@ {
        "dynamic · running · enter stop"@
    } else if status == "starting-host"@ || status == "client-pending"@ {
        "dynamic · starting"@
    } else if status == "failed"@ {
        "dynamic · failed · enter retry"@
    } else {
        "dynamic · stopped · enter restore"@
    }
}

fn cordis_note(status: &str) -> (r: &'static str)
    ensures
        r@ == cordis_meta(status@),
{
    if str_eq(status, "awaiting-approval") {
        "dynamic · awaiting approval · enter review"
    } else if str_eq(status, "running") || str_eq(status, "waiting") {
        "dynamic · running · enter stop"
    } else if str_eq(status, "starting-host") || str_eq(status, "client-pending") {
        "dynamic · starting"
    } else if str_eq(status, "failed") {
        "dynamic · failed · enter retry"
    } else {
        "dynamic · stopped · enter restore"
    }
}

/// A dynamic plugin as the manager lists it.
pub struct CordisPluginRow {
    pub id: String,
    pub name: String,
    pub status: String,
}

/// The dynamic plugin manager, on its first row.
pub fn cordis_plugin_picker(plugins: &Vec<CordisPluginRow>, title: &str) -> (r: Picker)
    ensures
        r.kind == PickerKind::CordisPlugin,
        r.title@ == title@,
        r.offset == 0,
        r.sel == 0,
        r.items.len() == plugins.len(),
        forall|k: int| 0 <= k < plugins.len() ==> {
            let u = #[trigger] plugins@[k];
            &&& r.items@[k].id@ == u.id@
            &&& r.items@[k].label@ == u.name@
            &&& r.items@[k].meta@ == cordis_meta(u.status@)
            &&& r.items@[k].provider is None
        },
{
    let mut items: Vec<PickerItem> = Vec::new();
    let mut i: usize = 0;
    while i < plugins.len()
        invariant
            i <= plugins.len(),
            items.len() == i,
            forall|k: int| 0 <= k < i ==> {
                let u = #[trigger] plugins@[k];
                &&& items@[k].id@ == u.id@
                &&& items@[k].label@ == u.name@
                &&& items@[k].meta@ == cordis_meta(u.status@)
                &&& items@[k].provider is None
            },
        decreases plugins.len() - i,
    {
        let u = &plugins[i];
        let meta = cordis_note(u.status.as_str()).to_owned();
        items.push(PickerItem { id: u.id.clone(), label: u.name.clone(), meta, provider: None });
        i = i + 1;
    }
    Picker { kind: PickerKind::CordisPlugin, title: title.to_owned(), sel: 0, items, offset: 0 }
}

fn approval_row(id: &str, label: &str, request_id: &str) -> (it: PickerItem)
    ensures
        it.id@ == id@,
        it.label@ == label@,
        it.meta@.len() == 0,
        (it.provider matches Some(p) && p@ == request_id@),
{
    PickerItem { id: id.to_owned(), label: label.to_owned(), meta: String::new(), provider: Some(request_id.to_owned()) }
}

/// The approval picker for a dynamic plugin's request: allow this
/// version, allow future versions, or reject — each row carrying the
/// request id.
pub fn cordis_approval_picker(request_id: &str, zh: bool, title: &str) -> (r: Picker)
    ensures
        r.kind == PickerKind::CordisApproval,
        r.title@ == title@,
        r.sel == 0,
        r.offset == 0,
        r.items.len() == 3,
        r.items@[0].id@ == "allow-version"@,
        r.items@[1].id@ == "allow-future"@,
        r.items@[2].id@ == "reject"@,
        r.items@[0].label@ == (if zh { "允许当前版本"@ } else { "Allow this version"@ }),
        r.items@[1].label@ == (if zh { "允许后续版本"@ } else { "Allow future versions"@ }),
        r.items@[2].label@ == (if zh { "拒绝"@ } else { "Reject"@ }),
        forall|k: int| 0 <= k < 3 ==> ((#[trigger] r.items@[k]).meta@.len() == 0 && (r.items@[k].provider
            matches Some(p) && p@ == request_id@)),
{
    let items = vec![
        approval_row("allow-version", if zh { "允许当前版本" } else { "Allow this version" }, request_id),
        approval_row("allow-future", if zh { "允许后续版本" } else { "Allow future versions" }, request_id),
        approval_row("reject", if zh { "拒绝" } else { "Reject" }, request_id),
    ];
    Picker { kind: PickerKind::CordisApproval, title: title.to_owned(), sel: 0, items, offset: 0 }
}

/// Which stored session a `/resume` argument names.
#[derive(Debug, PartialEq, Eq)]
pub enum SessionMatch {
    /// The session at this position of the candidates.
    Found(usize),
    /// No session id starts with the argument.
    NoMatch,
    /// This many ids start with it and none equals it.
    Ambiguous(usize),
}

/// The positions of the candidates whose id starts with `prefix`.
pub open spec fn prefixed(ids: Seq<Seq<char>>, prefix: Seq<char>) -> Seq<int>
    decreases ids.len(),
{
    if ids.len() == 0 {
        Seq::empty()
    } else {
        let rest = prefixed(ids.drop_last(), prefix);
        if has_prefix(ids.last(), prefix) {
            rest.push(ids.len() - 1)
        } else {
            rest
        }
    }
}

/// The session an argument names: the only candidate whose id starts with
/// it; among several, the first whose id equals it.
pub open spec fn session_match(ids: Seq<Seq<char>>, arg: Seq<char>) -> SessionMatch {
    let hits = prefixed(ids, arg);
    if hits.len() == 1 {
        SessionMatch::Found(hits[0] as usize)
    } else if hits.len() == 0 {
        SessionMatch::NoMatch
    } else {
        match index_in(ids, arg) {
            Some(i) => SessionMatch::Found(i as usize),
            None => SessionMatch::Ambiguous(hits.len() as usize),
        }
    }
}

proof fn lemma_prefixed_bounds(ids: Seq<Seq<char>>, prefix: Seq<char>)
    ensures
        prefixed(ids, prefix).len() <= ids.len(),
        forall|k: int| 0 <= k < prefixed(ids, prefix).len() ==> 0 <= #[trigger] prefixed(ids, prefix)[k] < ids.len(),
    decreases ids.len(),
{
    if ids.len() > 0 {
        lemma_prefixed_bounds(ids.drop_last(), prefix);
        let rest = prefixed(ids.drop_last(), prefix);
        assert forall|k: int| 0 <= k < prefixed(ids, prefix).len() implies 0 <= #[trigger] prefixed(ids, prefix)[k] < ids.len() by {
            if k < rest.len() {
                assert(prefixed(ids, prefix)[k] == rest[k]);
            }
        }
    }
}

/// Which candidate a `/resume` argument names.
pub fn match_session(ids: &Vec<String>, arg: &str) -> (r: SessionMatch)
    ensures
        r == session_match(ids@.map_values(|s: String| s@), arg@),
{
    let ghost v = ids@.map_values(|s: String| s@);
    let p = chars_of(arg);
    let mut hits: Vec<usize> = Vec::new();
    let mut exact: Option<usize> = None;
    let mut i: usize = 0;
    while i < ids.len()
        invariant
            i <= ids.len(),
            v == ids@.map_values(|s: String| s@),
            p@ == arg@,
            hits@.map_values(|h: usize| h as int) == prefixed(v.take(i as int), arg@),
            match exact {
                Some(e) => e < i && v[e as int] == arg@ && forall|j: int| 0 <= j < e ==> v[j] != arg@,
                None => forall|j: int| 0 <= j < i ==> v[j] != arg@,
            },
        decreases ids.len() - i,
    {
        let ghost before = hits@.map_values(|h: usize| h as int);
        let c = chars_of(ids[i].as_str());
        assert(v.take(i + 1).drop_last() =~= v.take(i as int));
        assert(v.take(i + 1).last() == v[i as int]);
        if starts_with(&c, &p) {
            hits.push(i);
            assert(hits@.map_values(|h: usize| h as int) =~= before.push(i as int));
        }
        if exact.is_none() && str_eq(ids[i].as_str(), arg) {
            exact = Some(i);
        }
        i = i + 1;
    }
    assert(v.take(ids.len() as int) =~= v);
    proof {
        lemma_prefixed_bounds(v, arg@);
        match exact {
            Some(e) => crate::agents::lemma_index_in(v, arg@, e as int),
            None => crate::agents::lemma_index_in(v, arg@, v.len() as int),
        }
    }
    if hits.len() == 1 {
        assert(hits@.map_values(|h: usize| h as int)[0] == hits@[0] as int);
        SessionMatch::Found(hits[0])
    } else if hits.len() == 0 {
        SessionMatch::NoMatch
    } else {
        match exact {
            Some(e) => SessionMatch::Found(e),
            None => SessionMatch::Ambiguous(hits.len()),
        }
    }
}

} // verus!
