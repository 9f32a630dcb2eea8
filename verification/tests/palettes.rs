use martty::palettes::{theme_picker, Choice, Mode, Palette, ThemeState};

fn pack(id: &str, loaded: bool, preferred: Option<Mode>) -> Palette {
    Palette { id: id.to_owned(), label: id.to_uppercase(), source: "builtin".to_owned(), loaded, preferred }
}

fn state() -> ThemeState {
    ThemeState {
        palettes: vec![pack("default", true, None), pack("latte", true, Some(Mode::Light)), pack("neon", false, None)],
        active: "default".to_owned(),
        painted: "default".to_owned(),
        mode: Mode::Dark,
        preview: None,
        pending: None,
    }
}

#[test]
fn a_preview_never_sticks() {
    let mut t = state();
    t.preview("latte");
    assert_eq!(t.painted, "latte");
    assert_eq!(t.mode, Mode::Light, "a pack with its own mode previews in it");
    assert_eq!(t.active, "default", "a preview commits nothing");
    assert_eq!(t.committed_mode(), Mode::Dark);
    t.clear_preview();
    assert_eq!((t.painted.as_str(), t.mode, t.preview.is_none()), ("default", Mode::Dark, true));
    t.preview("latte");
    t.preview("default");
    assert_eq!((t.painted.as_str(), t.mode), ("default", Mode::Dark), "back on the committed pack ends the preview");
}

#[test]
fn choosing_commits_a_loaded_pack_and_waits_for_a_stopped_one() {
    let mut t = state();
    assert_eq!(t.choose_pack("latte"), Choice::Committed);
    assert_eq!((t.active.as_str(), t.painted.as_str(), t.mode), ("latte", "latte", Mode::Light));
    assert_eq!(t.choose_pack("neon"), Choice::Loading);
    assert_eq!(t.active, "latte");
    assert_eq!(t.painted, "neon");
    assert_eq!(t.pending.as_deref(), Some("neon"));
    assert_eq!(t.choose_pack("nope"), Choice::NotListed);
    t.merge(pack("neon", true, None), true);
    assert_eq!((t.active.as_str(), t.painted.as_str()), ("neon", "neon"));
    assert_eq!(t.mode, Mode::Light, "a pack without its own mode keeps the mode in effect");
    assert!(t.pending.is_none() && t.preview.is_none());
}

#[test]
fn toggling_flips_the_committed_mode() {
    let mut t = state();
    assert_eq!(t.toggle_mode(), Mode::Light);
    assert_eq!(t.mode, Mode::Light);
    t.preview("latte");
    assert_eq!(t.toggle_mode(), Mode::Dark);
    assert_eq!(t.mode, Mode::Light, "the preview keeps painting its pack");
    t.clear_preview();
    assert_eq!(t.mode, Mode::Dark);
}

#[test]
fn a_stopped_or_withdrawn_committed_pack_falls_back_to_default() {
    let mut t = state();
    t.activate("latte");
    t.merge(pack("latte", false, Some(Mode::Light)), false);
    assert_eq!(t.active, "default");
    t.activate("latte");
    assert!(t.remove("latte"));
    assert_eq!(t.active, "default");
    assert_eq!(t.palettes.iter().map(|p| p.id.as_str()).collect::<Vec<_>>(), vec!["default", "neon"]);
    assert!(!t.remove("default"), "default never goes");
    assert!(!t.activate("ghost"));
}

#[test]
fn the_theme_list_notes_each_pack() {
    let t = state();
    let p = theme_picker(&t.palettes, "latte", "themes");
    let metas: Vec<&str> = p.items.iter().map(|i| i.meta.as_str()).collect();
    assert_eq!(metas, vec!["builtin · ready", "builtin · active", "builtin · stopped"]);
    assert_eq!(p.sel, 1);
}

fn catalog() -> Vec<Palette> {
    vec![pack("default", true, None), pack("latte", true, Some(Mode::Light)), pack("neon", false, None)]
}

#[test]
fn startup_commits_the_persisted_pack_when_it_is_listed() {
    let t = ThemeState::startup(catalog(), Some("latte"), None, None);
    assert_eq!((t.active.as_str(), t.painted.as_str(), t.mode), ("latte", "latte", Mode::Light));
    let t = ThemeState::startup(catalog(), Some("gone"), None, None);
    assert_eq!((t.active.as_str(), t.mode), ("default", Mode::Dark));
    let t = ThemeState::startup(catalog(), None, None, None);
    assert_eq!(t.active, "default");
    assert!(t.preview.is_none() && t.pending.is_none());
}

#[test]
fn the_command_line_mode_wins_then_the_persisted_one() {
    let t = ThemeState::startup(catalog(), Some("latte"), Some(Mode::Dark), None);
    assert_eq!(t.mode, Mode::Dark);
    let t = ThemeState::startup(catalog(), Some("latte"), Some(Mode::Dark), Some(Mode::Light));
    assert_eq!(t.mode, Mode::Light);
    let t = ThemeState::startup(catalog(), None, Some(Mode::Light), None);
    assert_eq!(t.mode, Mode::Light);
}

#[test]
fn removing_a_pack_keeps_the_others_whole() {
    let mut t = state();
    assert!(t.remove("latte"));
    let kept: Vec<(&str, &str, &str)> =
        t.palettes.iter().map(|p| (p.id.as_str(), p.label.as_str(), p.source.as_str())).collect();
    assert_eq!(kept, vec![("default", "DEFAULT", "builtin"), ("neon", "NEON", "builtin")]);
}
