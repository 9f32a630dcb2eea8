//! Per-session mode state and the choices derived from it: the agent
//! preset, the permission preset and the model in effect, and what the
//! one-keystroke cycles move to next.
use vstd::prelude::*;
use crate::slash_catalog::{CatalogPreset, stock_agent_modes, stock_permissions, agent_modes, permission_presets};
use crate::picker::PickerItem;
use crate::tabs::{first_with, lemma_first_with, lemma_first_with_found};
use crate::text::{str_eq, concat_str};

verus! {

/// Whether the live session is doing anything.
#[derive(Clone, Copy, Debug, PartialEq, Eq, Structural)]
pub enum RunState {
    Idle,
    Starting,
    Running,
}

/// Folded per-session mode state. Only client preferences such as the agent
/// preset and effort survive across sessions; permission facts come from
/// the current session.
pub struct Modes {
    pub plan: bool,
    pub sandbox: Option<String>,
    pub approval: Option<String>,
    pub permission: Option<String>,
    pub agent_preset: Option<String>,
    /// Reasoning effort as last requested from this client.
    pub effort: Option<String>,
}

impl Default for Modes {
    fn default() -> (m: Modes)
        ensures
            !m.plan,
            m.sandbox is None,
            m.approval is None,
            m.permission is None,
            m.agent_preset is None,
            m.effort is None,
    {
        Modes {
            plan: false,
            sandbox: None,
            approval: None,
            permission: None,
            agent_preset: None,
            effort: None,
        }
    }
}

pub open spec fn opt_view(s: Option<String>) -> Option<Seq<char>> {
    match s {
        Some(t) => Some(t@),
        None => None,
    }
}

pub open spec fn preset_ids(presets: Seq<CatalogPreset>) -> Seq<Seq<char>> {
    presets.map_values(|p: CatalogPreset| p.id@)
}

/// The effective agent preset: the one the session reported, else the demo
/// default, else the first advertised preset, else none.
pub open spec fn current_mode_of(modes: Modes, demo: bool, presets: Seq<CatalogPreset>) -> Seq<char> {
    match modes.agent_preset {
        Some(p) => p@,
        None => if demo {
            "standard"@
        } else if presets.len() > 0 {
            presets[0].id@
        } else {
            Seq::empty()
        },
    }
}

/// The effective composition id.
pub fn current_mode(modes: &Modes, demo: bool, presets: &Vec<CatalogPreset>) -> (r: String)
    ensures
        r@ == current_mode_of(*modes, demo, presets@),
{
    match &modes.agent_preset {
        Some(p) => p.clone(),
        None => if demo {
            "standard".to_owned()
        } else if presets.len() > 0 {
            presets[0].id.clone()
        } else {
            String::new()
        },
    }
}

/// A preset id's display name: the advertised preset's name, else (in demo
/// mode) the stock preset's, else the id itself.
pub open spec fn agent_label_of(id: Seq<char>, demo: bool, presets: Seq<CatalogPreset>) -> Seq<char> {
    match first_with(preset_ids(presets), id) {
        Some(i) => presets[i].name@,
        None => if demo && first_with(stock_agent_modes().map_values(|t: (Seq<char>, Seq<char>, Seq<char>)| t.0), id) is Some {
            stock_agent_modes()[first_with(stock_agent_modes().map_values(|t: (Seq<char>, Seq<char>, Seq<char>)| t.0), id)->0].1
        } else {
            id
        },
    }
}

fn position_of(ids: &Vec<String>, id: &str) -> (r: Option<usize>)
    ensures
        match r {
            Some(i) => first_with(ids@.map_values(|s: String| s@), id@) == Some(i as int),
            None => first_with(ids@.map_values(|s: String| s@), id@) is None,
        },
{
    let ghost v = ids@.map_values(|s: String| s@);
    let mut i: usize = 0;
    while i < ids.len()
        invariant
            i <= ids.len(),
            v == ids@.map_values(|s: String| s@),
            forall|j: int| 0 <= j < i ==> #[trigger] v[j] != id@,
        decreases ids.len() - i,
    {
        assert(v[i as int] == ids@[i as int]@);
        if str_eq(ids[i].as_str(), id) {
            proof {
                lemma_first_with(v, id@, i as int);
            }
            return Some(i);
        }
        i = i + 1;
    }
    proof {
        lemma_first_with(v, id@, i as int);
    }
    None
}

fn ids_of_presets(presets: &Vec<CatalogPreset>) -> (r: Vec<String>)
    ensures
        r@.map_values(|s: String| s@) == preset_ids(presets@),
{
    let mut r: Vec<String> = Vec::new();
    let mut i: usize = 0;
    while i < presets.len()
        invariant
            i <= presets.len(),
            r@.map_values(|s: String| s@) == preset_ids(presets@.take(i as int)),
        decreases presets.len() - i,
    {
        let ghost before = r@.map_values(|s: String| s@);
        r.push(presets[i].id.clone());
        assert(r@.map_values(|s: String| s@) =~= before.push(presets@[i as int].id@));
        assert(preset_ids(presets@.take(i + 1)) =~= preset_ids(presets@.take(i as int)).push(
            presets@[i as int].id@,
        ));
        i = i + 1;
    }
    assert(presets@.take(presets.len() as int) =~= presets@);
    r
}

fn stock_agent_ids() -> (r: Vec<String>)
    ensures
        r@.map_values(|s: String| s@) == stock_agent_modes().map_values(
            |t: (Seq<char>, Seq<char>, Seq<char>)| t.0,
        ),
{
    let modes = agent_modes();
    let ghost tv = modes@.map_values(|t: (&'static str, &'static str, &'static str)| (t.0@, t.1@, t.2@));
    let mut r: Vec<String> = Vec::new();
    let mut i: usize = 0;
    while i < modes.len()
        invariant
            i <= modes.len(),
            tv == modes@.map_values(|t: (&'static str, &'static str, &'static str)| (t.0@, t.1@, t.2@)),
            tv == stock_agent_modes(),
            r@.map_values(|s: String| s@) == tv.take(i as int).map_values(
                |t: (Seq<char>, Seq<char>, Seq<char>)| t.0,
            ),
        decreases modes.len() - i,
    {
        let ghost before = r@.map_values(|s: String| s@);
        r.push(modes[i].0.to_owned());
        assert(tv[i as int].0 == modes@[i as int].0@);
        assert(r@.map_values(|s: String| s@) =~= before.push(tv[i as int].0));
        assert(tv.take(i + 1).map_values(|t: (Seq<char>, Seq<char>, Seq<char>)| t.0) =~= tv.take(
            i as int,
        ).map_values(|t: (Seq<char>, Seq<char>, Seq<char>)| t.0).push(tv[i as int].0));
        i = i + 1;
    }
    assert(tv.take(modes.len() as int) =~= tv);
    r
}

/// Resolve a preset id through the latest catalog; demo mode falls back on
/// its stock catalog; an unknown id reads as itself.
pub fn agent_label(id: &str, demo: bool, presets: &Vec<CatalogPreset>) -> (r: String)
    ensures
        r@ == agent_label_of(id@, demo, presets@),
{
    let ids = ids_of_presets(presets);
    proof {
        lemma_first_with_found(preset_ids(presets@), id@);
    }
    match position_of(&ids, id) {
        Some(i) => presets[i].name.clone(),
        None => {
            if demo {
                let stock = stock_agent_ids();
                proof {
                    lemma_first_with_found(
                        stock_agent_modes().map_values(|t: (Seq<char>, Seq<char>, Seq<char>)| t.0),
                        id@,
                    );
                }
                if let Some(k) = position_of(&stock, id) {
                    let modes = agent_modes();
                    proof {
                        let tv = modes@.map_values(
                            |t: (&'static str, &'static str, &'static str)| (t.0@, t.1@, t.2@),
                        );
                        assert(tv[k as int] == (modes@[k as int].0@, modes@[k as int].1@, modes@[k as int].2@));
                    }
                    return modes[k].1.to_owned();
                }
            }
            id.to_owned()
        },
    }
}

/// The effective model: an explicit pick until a turn realizes it, then the
/// model that streamed last, then the configured default.
pub fn current_model(selected: &Option<String>, last_streamed: &Option<String>, configured: &String) -> (r: String)
    ensures
        r@ == match selected {
            Some(m) => m@,
            None => match last_streamed {
                Some(m) => m@,
                None => configured@,
            },
        },
{
    match selected {
        Some(m) => m.clone(),
        None => match last_streamed {
            Some(m) => m.clone(),
            None => configured.clone(),
        },
    }
}

/// The effective permission preset: the one the session reported, else the
/// harness default `workspace-write`.
pub open spec fn current_permission_of(modes: Modes) -> Seq<char> {
    match modes.permission {
        Some(p) => p@,
        None => "workspace-write"@,
    }
}

/// The effective permission preset.
pub fn current_permission(modes: &Modes) -> (r: &str)
    ensures
        r@ == current_permission_of(*modes),
{
    match &modes.permission {
        Some(p) => p.as_str(),
        None => "workspace-write",
    }
}

/// The choice after `current` in `ids`, cyclically; an unknown current
/// counts as the first choice.
pub open spec fn next_after(ids: Seq<Seq<char>>, current: Seq<char>) -> Seq<char> {
    let idx = match first_with(ids, current) {
        Some(i) => i,
        None => 0,
    };
    ids[(idx + 1) % (ids.len() as int)]
}

/// The permission preset Shift+Tab switches to: the next advertised mode
/// when the agent offers at least two, else the next stock preset.
pub open spec fn next_permission_of(choices: Seq<CatalogPreset>, current: Seq<char>) -> Seq<char> {
    if choices.len() >= 2 {
        next_after(preset_ids(choices), current)
    } else {
        next_after(stock_permissions().map_values(|t: (Seq<char>, Seq<char>)| t.0), current)
    }
}

/// The permission preset after `current` in the cycle.
pub fn next_permission(choices: &Vec<CatalogPreset>, current: &str) -> (r: String)
    ensures
        r@ == next_permission_of(choices@, current@),
{
    let ids = if choices.len() >= 2 {
        ids_of_presets(choices)
    } else {
        let stock = permission_presets();
        let ghost tv = stock@.map_values(|t: (&'static str, &'static str)| (t.0@, t.1@));
        let mut ids: Vec<String> = Vec::new();
        let mut i: usize = 0;
        while i < stock.len()
            invariant
                i <= stock.len(),
                tv == stock@.map_values(|t: (&'static str, &'static str)| (t.0@, t.1@)),
                tv == stock_permissions(),
                ids@.map_values(|s: String| s@) == tv.take(i as int).map_values(
                    |t: (Seq<char>, Seq<char>)| t.0,
                ),
            decreases stock.len() - i,
        {
            let ghost before = ids@.map_values(|s: String| s@);
            ids.push(stock[i].0.to_owned());
            assert(tv[i as int].0 == stock@[i as int].0@);
            assert(ids@.map_values(|s: String| s@) =~= before.push(tv[i as int].0));
            assert(tv.take(i + 1).map_values(|t: (Seq<char>, Seq<char>)| t.0) =~= tv.take(
                i as int,
            ).map_values(|t: (Seq<char>, Seq<char>)| t.0).push(tv[i as int].0));
            i = i + 1;
        }
        assert(tv.take(stock.len() as int) =~= tv);
        ids
    };
    let ghost v = ids@.map_values(|s: String| s@);
    proof {
        lemma_first_with_found(v, current@);
        assert(v.len() == ids.len());
        assert(ids.len() >= 2);
    }
    let idx = match position_of(&ids, current) {
        Some(i) => i,
        None => 0,
    };
    let next = (idx + 1) % ids.len();
    assert(v[next as int] == ids@[next as int]@);
    ids[next].clone()
}

/// The agent preset Ctrl+Shift+A switches to: the one after the current in
/// the catalog (the stock catalog in demo mode), the first when the current
/// is not listed; none while the catalog is empty.
pub open spec fn next_agent_of(current: Seq<char>, demo: bool, presets: Seq<CatalogPreset>) -> Option<Seq<char>> {
    let ids = if demo {
        stock_agent_modes().map_values(|t: (Seq<char>, Seq<char>, Seq<char>)| t.0)
    } else {
        preset_ids(presets)
    };
    match first_with(ids, current) {
        Some(i) => Some(ids[(i + 1) % (ids.len() as int)]),
        None => if ids.len() > 0 {
            Some(ids[0])
        } else {
            None
        },
    }
}

/// The agent preset after `current` in the cycle, if any is advertised.
pub fn next_agent(current: &str, demo: bool, presets: &Vec<CatalogPreset>) -> (r: Option<String>)
    ensures
        match r {
            Some(s) => next_agent_of(current@, demo, presets@) == Some(s@),
            None => next_agent_of(current@, demo, presets@) is None,
        },
{
    let ids = if demo {
        stock_agent_ids()
    } else {
        ids_of_presets(presets)
    };
    let ghost v = ids@.map_values(|s: String| s@);
    proof {
        lemma_first_with_found(v, current@);
        assert(v.len() == ids.len());
    }
    match position_of(&ids, current) {
        Some(i) => {
            let next = (i + 1) % ids.len();
            assert(v[next as int] == ids@[next as int]@);
            Some(ids[next].clone())
        },
        None => if ids.len() > 0 {
            assert(v[0] == ids@[0]@);
            Some(ids[0].clone())
        } else {
            None
        },
    }
}

/// Cycling moves through every choice in turn: from the `i`-th of distinct
/// choices it goes to the next one, and from the last back to the first.
pub proof fn law_cycle_rotates(ids: Seq<Seq<char>>, i: int)
    requires
        0 <= i < ids.len(),
        forall|a: int, b: int| 0 <= a < b < ids.len() ==> ids[a] != ids[b],
    ensures
        next_after(ids, ids[i]) == ids[(i + 1) % (ids.len() as int)],
{
    lemma_first_with(ids, ids[i], i);
}

/// The model configuration after picking a model row: the model, and the
/// provider the row names (else the configured one); `switch` when either
/// differs from what is configured, so the agent is asked to switch.
pub struct ModelChoice {
    pub switch: bool,
    pub model: String,
    pub provider: String,
}

/// What picking the model row (`id`, `provider`) does to the configured
/// `model` and `provider`.
pub fn choose_model(id: &str, provider: Option<&str>, model: &str, configured_provider: &str) -> (r: ModelChoice)
    ensures
        ({
            let changed = id@ != model@ || (provider matches Some(p) && p@ != configured_provider@);
            &&& r.switch == changed
            &&& changed ==> r.model@ == id@ && r.provider@ == match provider {
                Some(p) => p@,
                None => configured_provider@,
            }
            &&& !changed ==> r.model@ == model@ && r.provider@ == configured_provider@
        }),
{
    let provider_changed = match provider {
        Some(p) => !str_eq(p, configured_provider),
        None => false,
    };
    if !str_eq(id, model) || provider_changed {
        let next_provider = match provider {
            Some(p) => p.to_owned(),
            None => configured_provider.to_owned(),
        };
        ModelChoice { switch: true, model: id.to_owned(), provider: next_provider }
    } else {
        ModelChoice { switch: false, model: model.to_owned(), provider: configured_provider.to_owned() }
    }
}

/// `current` after the agent rejected a switch to `failed`: a value the
/// UI showed optimistically is withdrawn, any other stays.
pub open spec fn withdrawn(current: Option<Seq<char>>, failed: Option<Seq<char>>) -> Option<Seq<char>> {
    match failed {
        Some(f) => if current == Some(f) { None } else { current },
        None => current,
    }
}

fn withdraw(current: &mut Option<String>, failed: Option<&str>)
    ensures
        match *final(current) {
            Some(c) => withdrawn(match *old(current) {
                Some(o) => Some(o@),
                None => None,
            }, match failed {
                Some(f) => Some(f@),
                None => None,
            }) == Some(c@),
            None => withdrawn(match *old(current) {
                Some(o) => Some(o@),
                None => None,
            }, match failed {
                Some(f) => Some(f@),
                None => None,
            }) is None,
        },
{
    let same = match (&*current, failed) {
        (Some(c), Some(f)) => str_eq(c.as_str(), f),
        _ => false,
    };
    if same {
        *current = None;
    }
}

/// The agent rejected a model or effort switch the UI already showed: the
/// picked model and the effort are withdrawn where they still show the
/// rejected value.
pub fn revert_rejected_switch(selected_model: &mut Option<String>, effort: &mut Option<String>, model: Option<&str>, failed_effort: Option<&str>)
    ensures
        opt_seq(*final(selected_model)) == withdrawn(opt_seq(*old(selected_model)), opt_str(model)),
        opt_seq(*final(effort)) == withdrawn(opt_seq(*old(effort)), opt_str(failed_effort)),
{
    withdraw(selected_model, model);
    withdraw(effort, failed_effort);
}

pub open spec fn opt_seq(o: Option<String>) -> Option<Seq<char>> {
    match o {
        Some(s) => Some(s@),
        None => None,
    }
}

pub open spec fn opt_str(o: Option<&str>) -> Option<Seq<char>> {
    match o {
        Some(s) => Some(s@),
        None => None,
    }
}

} // verus!
