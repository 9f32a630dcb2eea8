//! Theme palettes: the catalog of palette packs, the one committed, and
//! what the painter shows. Moving a highlight over the theme list only
//! previews a pack; Enter commits it (waiting for its plugin to load when
//! it is stopped); a preview never outlives its highlight, and clearing it
//! paints the committed pack in the committed mode again.
use vstd::prelude::*;
use crate::text::str_eq;
use crate::picker::{Picker, PickerItem, PickerKind};

verus! {

/// Light or dark.
#[derive(Clone, Copy, Debug, PartialEq, Eq, Structural)]
pub enum Mode {
    Dark,
    Light,
}

pub open spec fn flipped(m: Mode) -> Mode {
    match m {
        Mode::Dark => Mode::Light,
        Mode::Light => Mode::Dark,
    }
}

/// A palette pack as the catalog lists it.
pub struct Palette {
    pub id: String,
    pub label: String,
    /// Who provides it (built in, or the plugin that registered it).
    pub source: String,
    /// Its plugin delivered the pack.
    pub loaded: bool,
    /// The mode the pack is meant for, when it owns one.
    pub preferred: Option<Mode>,
}

/// The themes: the catalog, the committed pack, and what is painted.
pub struct ThemeState {
    pub palettes: Vec<Palette>,
    /// The committed pack.
    pub active: String,
    /// The pack the painter shows, and in which mode.
    pub painted: String,
    pub mode: Mode,
    /// A live preview: the previewed pack and the committed mode to return to.
    pub preview: Option<(String, Mode)>,
    /// A committed pack whose plugin is still loading.
    pub pending: Option<String>,
}

pub struct PaletteView {
    pub id: Seq<char>,
    pub label: Seq<char>,
    pub source: Seq<char>,
    pub loaded: bool,
    pub preferred: Option<Mode>,
}

pub struct ThemeView {
    pub palettes: Seq<PaletteView>,
    pub active: Seq<char>,
    pub painted: Seq<char>,
    pub mode: Mode,
    pub preview: Option<(Seq<char>, Mode)>,
    pub pending: Option<Seq<char>>,
}

pub open spec fn palette_view(p: Palette) -> PaletteView {
    PaletteView { id: p.id@, label: p.label@, source: p.source@, loaded: p.loaded, preferred: p.preferred }
}

impl View for ThemeState {
    type V = ThemeView;

    open spec fn view(&self) -> ThemeView {
        ThemeView {
            palettes: self.palettes@.map_values(|p: Palette| palette_view(p)),
            active: self.active@,
            painted: self.painted@,
            mode: self.mode,
            preview: match self.preview {
                Some((id, m)) => Some((id@, m)),
                None => None,
            },
            pending: match self.pending {
                Some(id) => Some(id@),
                None => None,
            },
        }
    }
}

pub open spec fn views_of(v: Seq<Palette>) -> Seq<PaletteView> {
    v.map_values(|p: Palette| palette_view(p))
}

/// The first pack with id `id`.
pub open spec fn palette_at(palettes: Seq<PaletteView>, id: Seq<char>) -> Option<int>
    decreases palettes.len(),
{
    if palettes.len() == 0 {
        None
    } else if palettes[0].id == id {
        Some(0)
    } else {
        match palette_at(palettes.drop_first(), id) {
            Some(i) => Some(i + 1),
            None => None,
        }
    }
}

/// The mode of the committed pack: the one a preview will return to.
pub open spec fn committed_mode(v: ThemeView) -> Mode {
    match v.preview {
        Some((_, m)) => m,
        None => v.mode,
    }
}

/// Paint the committed pack in the mode in effect.
pub open spec fn synced(v: ThemeView) -> ThemeView {
    if palette_at(v.palettes, v.active) is Some {
        ThemeView { painted: v.active, ..v }
    } else {
        v
    }
}

/// Commit pack `id` (when listed): previews end, the pack's own mode is
/// entered when it has one, and the pack is painted.
pub open spec fn activated(v: ThemeView, id: Seq<char>) -> ThemeView {
    match palette_at(v.palettes, id) {
        Some(i) => synced(
            ThemeView {
                active: id,
                preview: None,
                pending: None,
                mode: match v.palettes[i].preferred {
                    Some(m) => m,
                    None => v.mode,
                },
                ..v
            },
        ),
        None => v,
    }
}

/// Preview pack `id`: the committed pack itself ends any preview; another
/// listed pack is painted in its own mode (else the committed one) without
/// being committed, and a pending commit of a different pack is dropped.
pub open spec fn previewed(v: ThemeView, id: Seq<char>) -> ThemeView {
    if v.active == id {
        cleared(v)
    } else {
        match palette_at(v.palettes, id) {
            Some(i) => ThemeView {
                painted: id,
                mode: match v.palettes[i].preferred {
                    Some(m) => m,
                    None => committed_mode(v),
                },
                preview: Some((id, committed_mode(v))),
                pending: match v.pending {
                    Some(p) => if p != id { None } else { Some(p) },
                    None => None,
                },
                ..v
            },
            None => v,
        }
    }
}

/// End a preview (or a pending commit): the committed mode returns and the
/// committed pack is painted.
pub open spec fn cleared(v: ThemeView) -> ThemeView {
    if v.preview is Some || v.pending is Some {
        synced(
            ThemeView {
                preview: None,
                pending: None,
                mode: match v.preview {
                    Some((_, m)) => m,
                    None => v.mode,
                },
                ..v
            },
        )
    } else {
        v
    }
}

/// What choosing a pack did.
#[derive(Clone, Copy, Debug, PartialEq, Eq, Structural)]
pub enum Choice {
    NotListed,
    /// The pack was committed.
    Committed,
    /// The pack's plugin is loading; its colours are painted meanwhile.
    Loading,
}

/// Choose pack `id` (Enter): a loaded pack is committed; a stopped one is
/// painted and waits for its plugin.
pub open spec fn chosen(v: ThemeView, id: Seq<char>) -> (ThemeView, Choice) {
    match palette_at(v.palettes, id) {
        None => (v, Choice::NotListed),
        Some(i) => if v.palettes[i].loaded {
            (activated(v, id), Choice::Committed)
        } else if v.active != id {
            (
                ThemeView {
                    painted: id,
                    mode: match v.palettes[i].preferred {
                        Some(m) => m,
                        None => committed_mode(v),
                    },
                    preview: Some((id, committed_mode(v))),
                    pending: Some(id),
                    ..v
                },
                Choice::Loading,
            )
        } else {
            (v, Choice::Loading)
        },
    }
}

/// Flip the committed mode: a preview keeps painting its pack and only the
/// mode it returns to changes.
pub open spec fn toggled(v: ThemeView) -> ThemeView {
    match v.preview {
        Some((id, m)) => ThemeView { preview: Some((id, flipped(m))), ..v },
        None => ThemeView { mode: flipped(v.mode), ..v },
    }
}

fn find_palette(palettes: &Vec<Palette>, id: &str) -> (r: Option<usize>)
    ensures
        match r {
            Some(i) => palette_at(palettes@.map_values(|p: Palette| palette_view(p)), id@) == Some(i as int)
                && i < palettes.len(),
            None => palette_at(palettes@.map_values(|p: Palette| palette_view(p)), id@) is None,
        },
{
    let ghost v = palettes@.map_values(|p: Palette| palette_view(p));
    let mut i: usize = 0;
    assert(v.skip(0) =~= v);
    while i < palettes.len()
        invariant
            i <= palettes.len(),
            v == palettes@.map_values(|p: Palette| palette_view(p)),
            palette_at(v, id@) == match palette_at(v.skip(i as int), id@) {
                Some(a) => Some(a + i),
                None => None,
            },
        decreases palettes.len() - i,
    {
        let ghost rest = v.skip(i as int);
        assert(rest[0] == palette_view(palettes@[i as int]));
        assert(rest.drop_first() =~= v.skip(i + 1));
        if str_eq(palettes[i].id.as_str(), id) {
            return Some(i);
        }
        i = i + 1;
    }
    None
}

/// The pack committed at startup: the persisted one when the catalog has
/// it, else the builtin default.
pub open spec fn startup_pack(palettes: Seq<PaletteView>, persisted: Option<Seq<char>>) -> Seq<char> {
    match persisted {
        Some(p) => if palette_at(palettes, p) is Some { p } else { "default"@ },
        None => "default"@,
    }
}

/// The mode at startup: the command line's, else the persisted one, else
/// the committed pack's own, else dark.
pub open spec fn startup_mode(palettes: Seq<PaletteView>, pack: Seq<char>, cli: Option<Mode>, persisted: Option<Mode>) -> Mode {
    match cli {
        Some(m) => m,
        None => match persisted {
            Some(m) => m,
            None => match palette_at(palettes, pack) {
                Some(i) => match palettes[i].preferred {
                    Some(m) => m,
                    None => Mode::Dark,
                },
                None => Mode::Dark,
            },
        },
    }
}

impl ThemeState {
    /// The themes at startup, from the catalog (which always carries the
    /// builtin `default` pack), the persisted pack id and mode, and the
    /// command line's mode.
    pub fn startup(palettes: Vec<Palette>, persisted: Option<&str>, persisted_mode: Option<Mode>, cli: Option<Mode>) -> (r: ThemeState)
        requires
            palette_at(views_of(palettes@), "default"@) is Some,
        ensures
            ({
                let pv = views_of(palettes@);
                let pack = startup_pack(pv, match persisted {
                    Some(p) => Some(p@),
                    None => None,
                });
                &&& r@.palettes == pv
                &&& r@.active == pack
                &&& r@.painted == pack
                &&& r@.mode == startup_mode(pv, pack, cli, persisted_mode)
                &&& r@.preview is None
                &&& r@.pending is None
            }),
    {
        let ghost pv = views_of(palettes@);
        let active = match persisted {
            Some(p) => match find_palette(&palettes, p) {
                Some(_) => p.to_owned(),
                None => "default".to_owned(),
            },
            None => "default".to_owned(),
        };
        let mode = match cli {
            Some(m) => m,
            None => match persisted_mode {
                Some(m) => m,
                None => match find_palette(&palettes, active.as_str()) {
                    Some(i) => match palettes[i].preferred {
                        Some(m) => m,
                        None => Mode::Dark,
                    },
                    None => Mode::Dark,
                },
            },
        };
        proof {
            assert(views_of(palettes@) =~= palettes@.map_values(|p: Palette| palette_view(p)));
        }
        let painted = active.clone();
        ThemeState { palettes, active, painted, mode, preview: None, pending: None }
    }

    /// The committed mode.
    pub fn committed_mode(&self) -> (r: Mode)
        ensures
            r == committed_mode(self@),
    {
        match &self.preview {
            Some((_, m)) => *m,
            None => self.mode,
        }
    }

    fn sync(&mut self)
        ensures
            final(self)@ == synced(old(self)@),
            final(self).palettes@ == old(self).palettes@,
    {
        if find_palette(&self.palettes, self.active.as_str()).is_some() {
            self.painted = self.active.clone();
        }
    }

    /// Commit pack `id`; `false` when no pack has that id.
    pub fn activate(&mut self, id: &str) -> (r: bool)
        ensures
            final(self)@ == activated(old(self)@, id@),
            final(self).palettes@ == old(self).palettes@,
            r == (palette_at(old(self)@.palettes, id@) is Some),
    {
        match find_palette(&self.palettes, id) {
            None => false,
            Some(i) => {
                let preferred = self.palettes[i].preferred;
                self.preview = None;
                self.pending = None;
                self.active = id.to_owned();
                if let Some(m) = preferred {
                    self.mode = m;
                }
                self.sync();
                true
            },
        }
    }

    /// End a preview or a pending commit.
    pub fn clear_preview(&mut self)
        ensures
            final(self)@ == cleared(old(self)@),
    {
        if self.preview.is_some() || self.pending.is_some() {
            let back = match &self.preview {
                Some((_, m)) => *m,
                None => self.mode,
            };
            self.preview = None;
            self.pending = None;
            self.mode = back;
            self.sync();
        }
    }

    /// Preview pack `id` under a highlight.
    pub fn preview(&mut self, id: &str)
        ensures
            final(self)@ == previewed(old(self)@, id@),
    {
        if str_eq(self.active.as_str(), id) {
            self.clear_preview();
            return;
        }
        match find_palette(&self.palettes, id) {
            None => {},
            Some(i) => {
                let committed = self.committed_mode();
                let mode = match self.palettes[i].preferred {
                    Some(m) => m,
                    None => committed,
                };
                self.painted = id.to_owned();
                self.mode = mode;
                self.preview = Some((id.to_owned(), committed));
                let stale = match &self.pending {
                    Some(p) => !str_eq(p.as_str(), id),
                    None => false,
                };
                if stale {
                    self.pending = None;
                }
            },
        }
    }

    /// Choose pack `id` (Enter in the theme list, or `/theme <id>`).
    pub fn choose_pack(&mut self, id: &str) -> (r: Choice)
        ensures
            (final(self)@, r) == chosen(old(self)@, id@),
    {
        match find_palette(&self.palettes, id) {
            None => Choice::NotListed,
            Some(i) => if self.palettes[i].loaded {
                self.activate(id);
                Choice::Committed
            } else {
                if !str_eq(self.active.as_str(), id) {
                    let committed = self.committed_mode();
                    let mode = match self.palettes[i].preferred {
                        Some(m) => m,
                        None => committed,
                    };
                    self.painted = id.to_owned();
                    self.mode = mode;
                    self.preview = Some((id.to_owned(), committed));
                    self.pending = Some(id.to_owned());
                }
                Choice::Loading
            },
        }
    }

    /// Flip the committed mode (the one a preview returns to).
    pub fn toggle_mode(&mut self) -> (r: Mode)
        ensures
            final(self)@ == toggled(old(self)@),
            r == flipped(committed_mode(old(self)@)),
    {
        let next = match self.committed_mode() {
            Mode::Dark => Mode::Light,
            Mode::Light => Mode::Dark,
        };
        match &self.preview {
            Some((id, _)) => {
                let id = id.clone();
                self.preview = Some((id, next));
            },
            None => {
                self.mode = next;
            },
        }
        next
    }

    /// A palette pack arrived from its plugin (or was registered): it joins
    /// the catalog or replaces its entry whole (label and source included); a committed pack that stopped falls
    /// back to `default`; an arrival asking for it is committed; a reload of
    /// the committed pack repaints it.
    pub fn merge(&mut self, pack: Palette, activate: bool)
        ensures
            ({
                let p = palette_view(pack);
                let listed = match palette_at(old(self)@.palettes, p.id) {
                    Some(i) => ThemeView { palettes: old(self)@.palettes.update(i, p), ..old(self)@ },
                    None => ThemeView { palettes: old(self)@.palettes.push(p), ..old(self)@ },
                };
                final(self)@ == if !p.loaded && listed.active == p.id {
                    activated(listed, "default"@)
                } else if activate && p.loaded {
                    activated(listed, p.id)
                } else if p.loaded && listed.active == p.id {
                    synced(listed)
                } else {
                    listed
                }
            }),
            final(self).palettes@ == match palette_at(old(self)@.palettes, pack.id@) {
                Some(i) => old(self).palettes@.update(i, pack),
                None => old(self).palettes@.push(pack),
            },
    {
        let id = pack.id.clone();
        let loaded = pack.loaded;
        let ghost p = palette_view(pack);
        match find_palette(&self.palettes, id.as_str()) {
            Some(i) => {
                self.palettes.set(i, pack);
                assert(self@.palettes =~= old(self)@.palettes.update(i as int, p));
            },
            None => {
                self.palettes.push(pack);
                assert(self@.palettes =~= old(self)@.palettes.push(p));
            },
        }
        if !loaded && str_eq(self.active.as_str(), id.as_str()) {
            self.activate("default");
        } else if activate && loaded {
            self.activate(id.as_str());
        } else if loaded && str_eq(self.active.as_str(), id.as_str()) {
            self.sync();
        }
    }

    /// A plugin withdrew pack `id`: `default` can never go; a committed pack
    /// that goes falls back to `default` first. Returns whether it went.
    pub fn remove(&mut self, id: &str) -> (r: bool)
        ensures
            id@ == "default"@ ==> !r && final(self)@ == old(self)@,
            id@ != "default"@ ==> r && ({
                let after = if old(self)@.active == id@ { activated(old(self)@, "default"@) } else { old(self)@ };
                &&& final(self)@.palettes == after.palettes.filter(keeps(id@))
                &&& final(self)@.active == after.active
                &&& final(self)@.painted == after.painted
                &&& final(self)@.mode == after.mode
                &&& final(self)@.preview == after.preview
                &&& final(self)@.pending == after.pending
            }),
    {
        if str_eq(id, "default") {
            return false;
        }
        if str_eq(self.active.as_str(), id) {
            self.activate("default");
        }
        let ghost before = self@.palettes;
        let mut kept: Vec<Palette> = Vec::new();
        let mut all: Vec<Palette> = Vec::new();
        std::mem::swap(&mut all, &mut self.palettes);
        let ghost src = views_of(all@);
        assert(src == before);
        assert(src.len() == all.len());
        let mut i: usize = 0;
        assert(src.skip(0) =~= src);
        assert(src.take(0).filter(keeps(id@)) =~= Seq::<PaletteView>::empty()) by {
            reveal(Seq::filter);
        }
        while all.len() > 0
            invariant
                i + all.len() == src.len(),
                src.len() <= usize::MAX,
                views_of(all@) == src.skip(i as int),
                views_of(kept@) == src.take(i as int).filter(keeps(id@)),
            decreases all.len(),
        {
            let ghost old_all = all@;
            let e = all.remove(0);
            let ghost pe = palette_view(e);
            proof {
                assert(views_of(old_all)[0] == src.skip(i as int)[0]);
                assert(src.skip(i as int)[0] == pe);
                assert forall|k: int| 0 <= k < all@.len() implies #[trigger] views_of(all@)[k]
                    == src.skip(i + 1)[k] by {
                    assert(all@[k] == old_all[k + 1]);
                    assert(views_of(old_all)[k + 1] == src.skip(i as int)[k + 1]);
                }
                assert(views_of(all@) =~= src.skip(i + 1));
                assert(src.take(i + 1) =~= src.take(i as int).push(pe));
                assert(src.take(i + 1).drop_last() =~= src.take(i as int));
                assert(src.take(i + 1).last() == pe);
            }
            let ghost kv = views_of(kept@);
            if !str_eq(e.id.as_str(), id) {
                kept.push(e);
                assert(views_of(kept@) =~= kv.push(pe));
                proof {
                    src.take(i as int).lemma_filter_push(pe, keeps(id@));
                }
            } else {
                proof {
                    src.take(i as int).lemma_filter_push(pe, keeps(id@));
                }
            }
            i = i + 1;
        }
        assert(src.take(src.len() as int) =~= src);
        self.palettes = kept;
        true
    }
}

/// Keep every pack but `id`.
pub open spec fn keeps(id: Seq<char>) -> spec_fn(PaletteView) -> bool {
    |p: PaletteView| p.id != id
}

/// A palette row's note in the theme list.
pub open spec fn palette_meta(source: Seq<char>, id: Seq<char>, active: Seq<char>, loaded: bool) -> Seq<char> {
    source + if id == active {
        " · active"@
    } else if loaded {
        " · ready"@
    } else {
        " · stopped"@
    }
}

/// The theme list: every pack noted active, ready or stopped, the highlight
/// on the committed one.
pub fn theme_picker(palettes: &Vec<Palette>, active: &str, title: &str) -> (r: Picker)
    ensures
        r.kind == PickerKind::Theme,
        r.title@ == title@,
        r.offset == 0,
        r.items.len() == palettes.len(),
        forall|k: int| 0 <= k < palettes.len() ==> {
            let p = #[trigger] palettes@[k];
            &&& r.items@[k].id@ == p.id@
            &&& r.items@[k].label@ == p.label@
            &&& r.items@[k].meta@ == palette_meta(p.source@, p.id@, active@, p.loaded)
            &&& r.items@[k].provider is None
        },
        r.sel as int == match palette_at(palettes@.map_values(|p: Palette| palette_view(p)), active@) {
            Some(i) => i,
            None => 0,
        },
{
    let mut items: Vec<PickerItem> = Vec::new();
    let mut i: usize = 0;
    while i < palettes.len()
        invariant
            i <= palettes.len(),
            items.len() == i,
            forall|k: int| 0 <= k < i ==> {
                let p = #[trigger] palettes@[k];
                &&& items@[k].id@ == p.id@
                &&& items@[k].label@ == p.label@
                &&& items@[k].meta@ == palette_meta(p.source@, p.id@, active@, p.loaded)
                &&& items@[k].provider is None
            },
        decreases palettes.len() - i,
    {
        let p = &palettes[i];
        let note = if str_eq(p.id.as_str(), active) {
            " · active"
        } else if p.loaded {
            " · ready"
        } else {
            " · stopped"
        };
        let meta = crate::text::concat_str(p.source.as_str(), note);
        items.push(PickerItem { id: p.id.clone(), label: p.label.clone(), meta, provider: None });
        i = i + 1;
    }
    let sel = match find_palette(palettes, active) {
        Some(k) => k,
        None => 0,
    };
    Picker { kind: PickerKind::Theme, title: title.to_owned(), sel, items, offset: 0 }
}

/// A preview never sticks and never commits: previewing a listed pack and
/// then clearing the preview leaves the committed pack painted in the mode
/// that was in effect, with nothing pending: the state before the preview.
pub proof fn law_preview_never_sticks(v: ThemeView, id: Seq<char>)
    requires
        (v.preview is None),
        (v.pending is None),
        (palette_at(v.palettes, v.active) is Some),
        (palette_at(v.palettes, id) is Some),
        v.painted == v.active,
    ensures
        previewed(v, id).active == v.active,
        cleared(previewed(v, id)) == v,
{
}

} // verus!
