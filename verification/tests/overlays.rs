use martty::json::{Json, JsonNumber};
use martty::overlays::{
    adopt_select, catalog_model_items, nav_request, select_request, slot_stale, CatalogEntry, NavAction,
};
use martty::picker::{SelectOption, SelectOverlay};

fn option(value: &str, label: &str) -> SelectOption {
    SelectOption {
        disabled: false,
        deletable: false,
        value: value.to_owned(),
        label: label.to_owned(),
        description: None,
        group: None,
    }
}

fn form(id: &str, value: &str, options: &[(&str, &str)]) -> SelectOverlay {
    SelectOverlay {
        id: id.to_owned(),
        title: "Pick".to_owned(),
        value: value.to_owned(),
        options: options.iter().map(|(v, l)| option(v, l)).collect(),
        searchable: true,
        query: String::new(),
        sel: 0,
    }
}

#[test]
fn a_fresh_form_starts_on_its_value() {
    let adopted = adopt_select(form("f", "b", &[("a", "Alpha"), ("b", "Beta")]), None).unwrap();
    assert_eq!(adopted.sel, 1);
    assert!(adopt_select(form("f", "zzz", &[("a", "Alpha")]), None).is_none(), "no option holds the value");
    assert!(adopt_select(form("", "a", &[("a", "Alpha")]), None).is_none(), "a form needs an id");
}

#[test]
fn a_refreshed_form_keeps_the_search_and_the_choice() {
    let mut shown = form("f", "g", &[("a", "Alpha"), ("g", "Gamma"), ("b", "Beta")]);
    shown.query = "gam".to_owned();
    let refreshed = form("f", "a", &[("b", "Beta"), ("a", "Alpha"), ("g", "Gamma")]);
    let adopted = adopt_select(refreshed, Some(&shown)).unwrap();
    assert_eq!(adopted.query, "gam");
    assert_eq!(adopted.sel, 2, "the value the user was on moved but is still offered");
    assert_eq!(adopted.value, "g");

    shown.query = "bet".to_owned();
    let without = form("f", "a", &[("a", "Alpha"), ("b", "Beta")]);
    let adopted = adopt_select(without, Some(&shown)).unwrap();
    assert_eq!(adopted.sel, 1, "the old choice is gone: the first option the search shows");
    assert_eq!(adopted.value, "b");

    let other = adopt_select(form("other", "a", &[("a", "Alpha")]), Some(&shown)).unwrap();
    assert_eq!(other.query, "", "a different form starts clean");
}

#[test]
fn older_slot_snapshots_are_ignored() {
    assert!(slot_stale(Some(3), Some(Some(3))));
    assert!(slot_stale(Some(2), Some(Some(3))));
    assert!(!slot_stale(Some(4), Some(Some(3))));
    assert!(!slot_stale(None, Some(Some(3))));
    assert!(!slot_stale(Some(1), Some(None)));
    assert!(!slot_stale(Some(1), None));
}

fn obj(entries: Vec<(&str, Json)>) -> Json {
    Json::Object(entries.into_iter().map(|(k, v)| (k.to_owned(), v)).collect())
}

fn num(n: u64) -> Json {
    Json::Number(JsonNumber { text: n.to_string(), as_u64: Some(n) })
}

#[test]
fn navigation_requests_must_speak_the_protocol() {
    let ok = obj(vec![("protocol", num(1)), ("action", Json::Str("next".to_owned()))]);
    assert_eq!(nav_request(&ok, 1), Some(NavAction::Next));
    assert_eq!(nav_request(&ok, 2), None);
    let unknown = obj(vec![("protocol", num(1)), ("action", Json::Str("jump".to_owned()))]);
    assert_eq!(nav_request(&unknown, 1), None);
    let begin = obj(vec![("action", Json::Str("begin".to_owned())), ("protocol", num(0))]);
    assert_eq!(nav_request(&begin, 0), Some(NavAction::Begin));
    assert_eq!(nav_request(&Json::Null, 0), None);
    let select = obj(vec![("protocol", num(0)), ("id", Json::Str("agent-7".to_owned()))]);
    assert_eq!(select_request(&select, 0).as_deref(), Some("agent-7"));
    assert_eq!(select_request(&select, 1), None);
}

fn model(id: &str, provider: &str, vision: bool) -> CatalogEntry {
    CatalogEntry { id: id.to_owned(), name: id.to_uppercase(), provider: provider.to_owned(), vision }
}

#[test]
fn a_catalog_relists_the_model_picker() {
    let models = vec![model("m1", "acme", false), model("m2", "acme", true), model("m2", "zeta", false)];
    let (items, sel) = catalog_model_items(&models, "m2", "zeta");
    assert_eq!(sel, 2, "the model in effect under the configured provider");
    assert_eq!(items[1].meta, "acme · M2 · vision");
    assert_eq!(items[0].meta, "acme · M1");
    assert_eq!(items[2].provider.as_deref(), Some("zeta"));
    assert_eq!(items[1].label, "m2");
    let (_, sel) = catalog_model_items(&models, "m2", "other");
    assert_eq!(sel, 1, "an unknown provider still finds the id");
    let (_, sel) = catalog_model_items(&models, "m9", "acme");
    assert_eq!(sel, 0);
}
