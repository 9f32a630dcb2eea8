//! The argument menus of the builtin slash commands: for `/model `,
//! `/agent `, `/effort ` and the rest, the `(value, label, description)`
//! rows the inline menu offers, from what the session knows.
use vstd::prelude::*;
use crate::harness::{HarnessEntry, argv_view, join};
use crate::slash_catalog::{
    CatalogPreset, stock_agent_modes, stock_permissions, stock_models, agent_modes, permission_presets,
    model_presets,
};
use crate::text::{str_eq, concat_str};

verus! {

/// A model the agent's catalog offers.
pub struct CatalogModel {
    pub id: String,
    pub name: String,
    pub provider: String,
}

/// A theme palette on offer.
pub struct PaletteRow {
    pub id: String,
    pub label: String,
    /// Its theme plugin delivered it.
    pub loaded: bool,
    /// It ships with the client.
    pub builtin: bool,
}

/// A UI plugin on offer.
pub struct UiPluginRow {
    pub id: String,
    pub label: String,
    pub source: String,
    pub status: String,
}

/// A sign-in method the agent advertises.
pub struct AuthMethod {
    pub id: String,
    pub name: Option<String>,
    pub description: Option<String>,
}

/// What the argument menus are made from.
pub struct ArgumentSources {
    /// The model in effect.
    pub current_model: String,
    /// The agent's model catalog.
    pub models: Vec<CatalogModel>,
    /// Model ids of the host catalog snapshot, if one was found.
    pub host_models: Option<Vec<String>>,
    /// The agent presets advertised.
    pub presets: Vec<CatalogPreset>,
    /// The configured harnesses.
    pub harnesses: Vec<HarnessEntry>,
    /// The reasoning efforts advertised for the model.
    pub efforts: Vec<String>,
    /// The permission modes advertised.
    pub permissions: Vec<CatalogPreset>,
    /// The theme mode toggle's label and description (in the UI language).
    pub theme_toggle: (String, String),
    pub palettes: Vec<PaletteRow>,
    pub ui_plugins: Vec<UiPluginRow>,
    pub auth_methods: Vec<AuthMethod>,
}

/// A menu row: value, label, description.
pub type Row = (Seq<char>, Seq<char>, Seq<char>);

pub open spec fn row_view(r: (String, String, String)) -> Row {
    (r.0@, r.1@, r.2@)
}

pub open spec fn rows_view(rows: Seq<(String, String, String)>) -> Seq<Row> {
    rows.map_values(|r: (String, String, String)| row_view(r))
}

/// A row whose label is its value.
pub open spec fn plain(value: Seq<char>, desc: Seq<char>) -> Row {
    (value, value, desc)
}

pub open spec fn model_ids(models: Seq<CatalogModel>) -> Seq<Seq<char>> {
    models.map_values(|m: CatalogModel| m.id@)
}

/// `/model `: the agent's catalog, else the host catalog, else the stock
/// models — with the model in effect put first when the list lacks it.
pub open spec fn model_rows(src: ArgumentSources) -> Seq<Row> {
    let current = src.current_model@;
    if src.models.len() > 0 {
        let rows = src.models@.map_values(|m: CatalogModel| (m.id@, m.name@, m.provider@));
        if model_ids(src.models@).contains(current) {
            rows
        } else {
            seq![(current, current, Seq::empty())] + rows
        }
    } else {
        let ids = match src.host_models {
            Some(v) => v@.map_values(|s: String| s@),
            None => stock_models(),
        };
        let all = if ids.contains(current) { ids } else { seq![current] + ids };
        all.map_values(|id: Seq<char>| (id, id, Seq::<char>::empty()))
    }
}

pub open spec fn preset_rows(presets: Seq<CatalogPreset>) -> Seq<Row> {
    presets.map_values(|p: CatalogPreset| (p.id@, p.name@, p.description@))
}

/// A palette's description: stopped while its plugin has not delivered it,
/// else builtin or plugin.
pub open spec fn palette_note(p: PaletteRow) -> Seq<char> {
    if !p.loaded {
        "theme plugin · stopped"@
    } else if p.builtin {
        "builtin"@
    } else {
        "theme plugin"@
    }
}

/// The argument menu of `/name `.
pub open spec fn argument_rows(name: Seq<char>, src: ArgumentSources) -> Seq<Row> {
    if name == "model"@ {
        model_rows(src)
    } else if name == "agent"@ {
        if src.presets.len() > 0 {
            preset_rows(src.presets@)
        } else {
            stock_agent_modes()
        }
    } else if name == "harness"@ {
        src.harnesses@.map_values(|e: HarnessEntry| (e.id@, e.label@, join(argv_view(e.harness@), seq![' '])))
    } else if name == "effort"@ {
        if src.efforts.len() > 0 {
            src.efforts@.map_values(|e: String| (e@, e@, Seq::<char>::empty()))
        } else {
            seq![
                plain("off"@, "disable extended reasoning"@),
                plain("high"@, "high reasoning effort"@),
                plain("max"@, "maximum reasoning effort"@),
            ]
        }
    } else if name == "permission"@ {
        if src.permissions.len() > 0 {
            preset_rows(src.permissions@)
        } else {
            stock_permissions().map_values(|p: (Seq<char>, Seq<char>)| plain(p.0, p.1))
        }
    } else if name == "plan"@ {
        seq![plain("on"@, "enable plan mode"@), plain("off"@, "disable plan mode"@)]
    } else if name == "theme"@ {
        seq![("toggle"@, src.theme_toggle.0@, src.theme_toggle.1@)] + src.palettes@.map_values(
            |p: PaletteRow| (p.id@, p.label@, palette_note(p)),
        )
    } else if name == "ui"@ {
        src.ui_plugins@.map_values(|u: UiPluginRow| (u.id@, u.label@, u.source@ + " · "@ + u.status@))
    } else if name == "auth"@ {
        src.auth_methods@.map_values(
            |m: AuthMethod| (
                m.id@,
                match m.name {
                    Some(n) => n@,
                    None => m.id@,
                },
                match m.description {
                    Some(d) => d@,
                    None => Seq::empty(),
                },
            ),
        )
    } else if name == "lang"@ {
        seq![plain("zh"@, "中文"@), plain("en"@, "English"@)]
    } else if name == "liang"@ {
        seq![plain("on"@, "show pet"@), plain("off"@, "hide pet"@)]
    } else if name == "session"@ {
        seq![
            plain("view"@, "show session + runtime info"@),
            plain("prev"@, "switch to the previous session tab"@),
            plain("next"@, "switch to the next session tab"@),
        ]
    } else {
        Seq::empty()
    }
}

fn plain_row(value: &str, desc: &str) -> (r: (String, String, String))
    ensures
        row_view(r) == plain(value@, desc@),
{
    (value.to_owned(), value.to_owned(), desc.to_owned())
}

fn contains_id(ids: &Vec<String>, id: &String) -> (r: bool)
    ensures
        r == ids@.map_values(|s: String| s@).contains(id@),
{
    let ghost v = ids@.map_values(|s: String| s@);
    let mut i: usize = 0;
    while i < ids.len()
        invariant
            i <= ids.len(),
            v == ids@.map_values(|s: String| s@),
            forall|j: int| 0 <= j < i ==> v[j] != id@,
        decreases ids.len() - i,
    {
        if str_eq(ids[i].as_str(), id.as_str()) {
            assert(v[i as int] == id@);
            return true;
        }
        i = i + 1;
    }
    proof {
        if v.contains(id@) {
            let j = choose|j: int| 0 <= j < v.len() && v[j] == id@;
            assert(v[j] != id@);
        }
    }
    false
}

fn model_options(src: &ArgumentSources) -> (r: Vec<(String, String, String)>)
    ensures
        rows_view(r@) == model_rows(*src),
{
    let current = &src.current_model;
    if src.models.len() > 0 {
        let mut rows: Vec<(String, String, String)> = Vec::new();
        let mut ids: Vec<String> = Vec::new();
        let mut i: usize = 0;
        while i < src.models.len()
            invariant
                i <= src.models.len(),
                rows_view(rows@) == src.models@.take(i as int).map_values(
                    |m: CatalogModel| (m.id@, m.name@, m.provider@),
                ),
                ids@.map_values(|s: String| s@) == model_ids(src.models@.take(i as int)),
            decreases src.models.len() - i,
        {
            let m = &src.models[i];
            let ghost before = rows_view(rows@);
            let ghost ids_before = ids@.map_values(|s: String| s@);
            rows.push((m.id.clone(), m.name.clone(), m.provider.clone()));
            ids.push(m.id.clone());
            assert(rows_view(rows@) =~= before.push((m.id@, m.name@, m.provider@)));
            assert(ids@.map_values(|s: String| s@) =~= ids_before.push(m.id@));
            assert(src.models@.take(i + 1) =~= src.models@.take(i as int).push(src.models@[i as int]));
            i = i + 1;
        }
        assert(src.models@.take(src.models.len() as int) =~= src.models@);
        if !contains_id(&ids, current) {
            let ghost before = rows_view(rows@);
            rows.insert(0, (current.clone(), current.clone(), String::new()));
            assert(rows_view(rows@) =~= seq![(current@, current@, Seq::<char>::empty())] + before);
        }
        return rows;
    }
    let mut ids: Vec<String> = match &src.host_models {
        Some(v) => {
            let mut out: Vec<String> = Vec::new();
            let mut i: usize = 0;
            while i < v.len()
                invariant
                    i <= v.len(),
                    out@.map_values(|s: String| s@) == v@.take(i as int).map_values(|s: String| s@),
                decreases v.len() - i,
            {
                let ghost before = out@.map_values(|s: String| s@);
                out.push(v[i].clone());
                assert(out@.map_values(|s: String| s@) =~= before.push(v@[i as int]@));
                assert(v@.take(i + 1).map_values(|s: String| s@) =~= v@.take(i as int).map_values(
                    |s: String| s@,
                ).push(v@[i as int]@));
                i = i + 1;
            }
            assert(v@.take(v.len() as int) =~= v@);
            out
        },
        None => {
            let stock = model_presets();
            let mut out: Vec<String> = Vec::new();
            let mut i: usize = 0;
            while i < stock.len()
                invariant
                    i <= stock.len(),
                    stock@.map_values(|m: &'static str| m@) == stock_models(),
                    out@.map_values(|s: String| s@) == stock_models().take(i as int),
                decreases stock.len() - i,
            {
                let ghost before = out@.map_values(|s: String| s@);
                out.push(stock[i].to_owned());
                assert(stock_models()[i as int] == stock@[i as int]@);
                assert(out@.map_values(|s: String| s@) =~= before.push(stock@[i as int]@));
                assert(stock_models().take(i + 1) =~= stock_models().take(i as int).push(
                    stock_models()[i as int],
                ));
                i = i + 1;
            }
            assert(stock_models().take(stock.len() as int) =~= stock_models());
            out
        },
    };
    if !contains_id(&ids, current) {
        let ghost before = ids@.map_values(|s: String| s@);
        ids.insert(0, current.clone());
        assert(ids@.map_values(|s: String| s@) =~= seq![current@] + before);
    }
    let ghost all = ids@.map_values(|s: String| s@);
    let mut rows: Vec<(String, String, String)> = Vec::new();
    let mut i: usize = 0;
    while i < ids.len()
        invariant
            i <= ids.len(),
            all == ids@.map_values(|s: String| s@),
            rows_view(rows@) == all.take(i as int).map_values(|id: Seq<char>| (id, id, Seq::<char>::empty())),
        decreases ids.len() - i,
    {
        let ghost before = rows_view(rows@);
        rows.push((ids[i].clone(), ids[i].clone(), String::new()));
        assert(all[i as int] == ids@[i as int]@);
        assert(rows_view(rows@) =~= before.push((all[i as int], all[i as int], Seq::<char>::empty())));
        assert(all.take(i + 1) =~= all.take(i as int).push(all[i as int]));
        i = i + 1;
    }
    assert(all.take(ids.len() as int) =~= all);
    rows
}

fn preset_options(presets: &Vec<CatalogPreset>) -> (r: Vec<(String, String, String)>)
    ensures
        rows_view(r@) == preset_rows(presets@),
{
    let mut rows: Vec<(String, String, String)> = Vec::new();
    let mut i: usize = 0;
    while i < presets.len()
        invariant
            i <= presets.len(),
            rows_view(rows@) == preset_rows(presets@.take(i as int)),
        decreases presets.len() - i,
    {
        let p = &presets[i];
        let ghost before = rows_view(rows@);
        rows.push((p.id.clone(), p.name.clone(), p.description.clone()));
        assert(rows_view(rows@) =~= before.push((p.id@, p.name@, p.description@)));
        assert(presets@.take(i + 1) =~= presets@.take(i as int).push(presets@[i as int]));
        i = i + 1;
    }
    assert(presets@.take(presets.len() as int) =~= presets@);
    rows
}

/// The `(value, label, description)` rows of the inline menu for `/name `.
pub fn builtin_argument_options(name: &str, src: &ArgumentSources) -> (r: Vec<(String, String, String)>)
    ensures
        rows_view(r@) == argument_rows(name@, *src),
{
    if str_eq(name, "model") {
        model_options(src)
    } else if str_eq(name, "agent") {
        if src.presets.len() > 0 {
            preset_options(&src.presets)
        } else {
            let modes = agent_modes();
            let ghost tv = modes@.map_values(|t: (&'static str, &'static str, &'static str)| (t.0@, t.1@, t.2@));
            let mut rows: Vec<(String, String, String)> = Vec::new();
            let mut i: usize = 0;
            while i < modes.len()
                invariant
                    i <= modes.len(),
                    tv == modes@.map_values(|t: (&'static str, &'static str, &'static str)| (t.0@, t.1@, t.2@)),
                    tv == stock_agent_modes(),
                    rows_view(rows@) == tv.take(i as int),
                decreases modes.len() - i,
            {
                let ghost before = rows_view(rows@);
                rows.push((modes[i].0.to_owned(), modes[i].1.to_owned(), modes[i].2.to_owned()));
                assert(tv[i as int] == (modes@[i as int].0@, modes@[i as int].1@, modes@[i as int].2@));
                assert(rows_view(rows@) =~= before.push(tv[i as int]));
                assert(tv.take(i + 1) =~= tv.take(i as int).push(tv[i as int]));
                i = i + 1;
            }
            assert(tv.take(modes.len() as int) =~= tv);
            rows
        }
    } else if str_eq(name, "harness") {
        let mut rows: Vec<(String, String, String)> = Vec::new();
        let mut i: usize = 0;
        while i < src.harnesses.len()
            invariant
                i <= src.harnesses.len(),
                rows_view(rows@) == src.harnesses@.take(i as int).map_values(
                    |e: HarnessEntry| (e.id@, e.label@, join(argv_view(e.harness@), seq![' '])),
                ),
            decreases src.harnesses.len() - i,
        {
            let e = &src.harnesses[i];
            let ghost before = rows_view(rows@);
            let command = e.command_text();
            rows.push((e.id.clone(), e.label.clone(), command));
            assert(rows_view(rows@) =~= before.push((e.id@, e.label@, join(argv_view(e.harness@), seq![' ']))));
            assert(src.harnesses@.take(i + 1) =~= src.harnesses@.take(i as int).push(src.harnesses@[i as int]));
            i = i + 1;
        }
        assert(src.harnesses@.take(src.harnesses.len() as int) =~= src.harnesses@);
        rows
    } else if str_eq(name, "effort") {
        if src.efforts.len() > 0 {
            let mut rows: Vec<(String, String, String)> = Vec::new();
            let mut i: usize = 0;
            while i < src.efforts.len()
                invariant
                    i <= src.efforts.len(),
                    rows_view(rows@) == src.efforts@.take(i as int).map_values(
                        |e: String| (e@, e@, Seq::<char>::empty()),
                    ),
                decreases src.efforts.len() - i,
            {
                let ghost before = rows_view(rows@);
                rows.push((src.efforts[i].clone(), src.efforts[i].clone(), String::new()));
                assert(rows_view(rows@) =~= before.push((src.efforts@[i as int]@, src.efforts@[i as int]@, Seq::<char>::empty())));
                assert(src.efforts@.take(i + 1) =~= src.efforts@.take(i as int).push(src.efforts@[i as int]));
                i = i + 1;
            }
            assert(src.efforts@.take(src.efforts.len() as int) =~= src.efforts@);
            rows
        } else {
            let rows = vec![
                plain_row("off", "disable extended reasoning"),
                plain_row("high", "high reasoning effort"),
                plain_row("max", "maximum reasoning effort"),
            ];
            assert(rows_view(rows@) =~= argument_rows(name@, *src));
            rows
        }
    } else if str_eq(name, "permission") {
        if src.permissions.len() > 0 {
            preset_options(&src.permissions)
        } else {
            let stock = permission_presets();
            let ghost tv = stock@.map_values(|t: (&'static str, &'static str)| (t.0@, t.1@));
            let mut rows: Vec<(String, String, String)> = Vec::new();
            let mut i: usize = 0;
            while i < stock.len()
                invariant
                    i <= stock.len(),
                    tv == stock@.map_values(|t: (&'static str, &'static str)| (t.0@, t.1@)),
                    tv == stock_permissions(),
                    rows_view(rows@) == tv.take(i as int).map_values(|p: (Seq<char>, Seq<char>)| plain(p.0, p.1)),
                decreases stock.len() - i,
            {
                let ghost before = rows_view(rows@);
                rows.push(plain_row(stock[i].0, stock[i].1));
                assert(tv[i as int] == (stock@[i as int].0@, stock@[i as int].1@));
                assert(rows_view(rows@) =~= before.push(plain(tv[i as int].0, tv[i as int].1)));
                assert(tv.take(i + 1).map_values(|p: (Seq<char>, Seq<char>)| plain(p.0, p.1)) =~= tv.take(
                    i as int,
                ).map_values(|p: (Seq<char>, Seq<char>)| plain(p.0, p.1)).push(plain(tv[i as int].0, tv[i as int].1)));
                i = i + 1;
            }
            assert(tv.take(stock.len() as int) =~= tv);
            rows
        }
    } else if str_eq(name, "plan") {
        let rows = vec![plain_row("on", "enable plan mode"), plain_row("off", "disable plan mode")];
        assert(rows_view(rows@) =~= argument_rows(name@, *src));
        rows
    } else if str_eq(name, "theme") {
        let mut rows: Vec<(String, String, String)> = Vec::new();
        rows.push(("toggle".to_owned(), src.theme_toggle.0.clone(), src.theme_toggle.1.clone()));
        let mut i: usize = 0;
        while i < src.palettes.len()
            invariant
                i <= src.palettes.len(),
                rows_view(rows@) == seq![("toggle"@, src.theme_toggle.0@, src.theme_toggle.1@)]
                    + src.palettes@.take(i as int).map_values(|p: PaletteRow| (p.id@, p.label@, palette_note(p))),
            decreases src.palettes.len() - i,
        {
            let p = &src.palettes[i];
            let ghost before = rows_view(rows@);
            let note = if !p.loaded {
                "theme plugin · stopped".to_owned()
            } else if p.builtin {
                "builtin".to_owned()
            } else {
                "theme plugin".to_owned()
            };
            rows.push((p.id.clone(), p.label.clone(), note));
            assert(rows_view(rows@) =~= before.push((p.id@, p.label@, palette_note(*p))));
            assert(src.palettes@.take(i + 1) =~= src.palettes@.take(i as int).push(src.palettes@[i as int]));
            i = i + 1;
        }
        assert(src.palettes@.take(src.palettes.len() as int) =~= src.palettes@);
        rows
    } else if str_eq(name, "ui") {
        let mut rows: Vec<(String, String, String)> = Vec::new();
        let mut i: usize = 0;
        while i < src.ui_plugins.len()
            invariant
                i <= src.ui_plugins.len(),
                rows_view(rows@) == src.ui_plugins@.take(i as int).map_values(
                    |u: UiPluginRow| (u.id@, u.label@, u.source@ + " · "@ + u.status@),
                ),
            decreases src.ui_plugins.len() - i,
        {
            let u = &src.ui_plugins[i];
            let ghost before = rows_view(rows@);
            let a = concat_str(u.source.as_str(), " · ");
            let note = concat_str(a.as_str(), u.status.as_str());
            rows.push((u.id.clone(), u.label.clone(), note));
            assert(rows_view(rows@) =~= before.push((u.id@, u.label@, u.source@ + " · "@ + u.status@)));
            assert(src.ui_plugins@.take(i + 1) =~= src.ui_plugins@.take(i as int).push(src.ui_plugins@[i as int]));
            i = i + 1;
        }
        assert(src.ui_plugins@.take(src.ui_plugins.len() as int) =~= src.ui_plugins@);
        rows
    } else if str_eq(name, "auth") {
        let mut rows: Vec<(String, String, String)> = Vec::new();
        let mut i: usize = 0;
        while i < src.auth_methods.len()
            invariant
                i <= src.auth_methods.len(),
                rows_view(rows@) == src.auth_methods@.take(i as int).map_values(
                    |m: AuthMethod| (
                        m.id@,
                        match m.name {
                            Some(n) => n@,
                            None => m.id@,
                        },
                        match m.description {
                            Some(d) => d@,
                            None => Seq::empty(),
                        },
                    ),
                ),
            decreases src.auth_methods.len() - i,
        {
            let m = &src.auth_methods[i];
            let ghost before = rows_view(rows@);
            let label = match &m.name {
                Some(n) => n.clone(),
                None => m.id.clone(),
            };
            let desc = match &m.description {
                Some(d) => d.clone(),
                None => String::new(),
            };
            rows.push((m.id.clone(), label, desc));
            assert(rows_view(rows@) =~= before.push(
                (
                    m.id@,
                    match m.name {
                        Some(n) => n@,
                        None => m.id@,
                    },
                    match m.description {
                        Some(d) => d@,
                        None => Seq::empty(),
                    },
                ),
            ));
            assert(src.auth_methods@.take(i + 1) =~= src.auth_methods@.take(i as int).push(src.auth_methods@[i as int]));
            i = i + 1;
        }
        assert(src.auth_methods@.take(src.auth_methods.len() as int) =~= src.auth_methods@);
        rows
    } else if str_eq(name, "lang") {
        let rows = vec![plain_row("zh", "中文"), plain_row("en", "English")];
        assert(rows_view(rows@) =~= argument_rows(name@, *src));
        rows
    } else if str_eq(name, "liang") {
        let rows = vec![plain_row("on", "show pet"), plain_row("off", "hide pet")];
        assert(rows_view(rows@) =~= argument_rows(name@, *src));
        rows
    } else if str_eq(name, "session") {
        let rows = vec![
            plain_row("view", "show session + runtime info"),
            plain_row("prev", "switch to the previous session tab"),
            plain_row("next", "switch to the next session tab"),
        ];
        assert(rows_view(rows@) =~= argument_rows(name@, *src));
        rows
    } else {
        let rows: Vec<(String, String, String)> = Vec::new();
        assert(rows_view(rows@) =~= Seq::<Row>::empty());
        rows
    }
}

} // verus!
