use martty::json::Json;
use martty::settings::{
    host_catalog_models, quarantined_settings_path, set_member, settings_document, temporary_settings_path,
    with_default_harness, with_preferences,
};


fn parse(text: &str) -> Option<Json> {
    martty::json::parse_json(text)
}

fn keys(doc: &Json) -> Vec<String> {
    match doc {
        Json::Object(m) => m.iter().map(|(k, _)| k.clone()).collect(),
        _ => Vec::new(),
    }
}

#[test]
fn an_object_file_is_the_document() {
    let text = r#"{"theme":"iceberg","uiPreset":"x"}"#;
    let d = settings_document(Some(text), parse(text));
    assert!(!d.quarantine);
    assert_eq!(keys(&d.document), vec!["theme", "uiPreset"]);
}

#[test]
fn a_file_that_does_not_parse_is_quarantined() {
    let d = settings_document(Some("not json"), parse("not json"));
    assert!(d.quarantine);
    assert!(keys(&d.document).is_empty());
    let array = settings_document(Some("[1]"), parse("[1]"));
    assert!(array.quarantine, "an array is no settings document");
    let blank = settings_document(Some("  \n"), None);
    assert!(!blank.quarantine);
    let absent = settings_document(None, None);
    assert!(!absent.quarantine);
}

#[test]
fn the_default_harness_is_written_in_place() {
    let mut doc = parse(r#"{"defaultHarness":"old","theme":"x"}"#).unwrap();
    with_default_harness(&mut doc, "new");
    assert_eq!(keys(&doc), vec!["defaultHarness", "theme"]);
    assert_eq!(doc.get("defaultHarness").and_then(|v| v.as_str()), Some("new"));
    assert_eq!(doc.get("theme").and_then(|v| v.as_str()), Some("x"));
    let mut fresh = parse(r#"{"theme":"x"}"#).unwrap();
    with_default_harness(&mut fresh, "h");
    assert_eq!(keys(&fresh), vec!["theme", "defaultHarness"]);
}

#[test]
fn a_member_read_after_a_write_is_the_written_value() {
    let mut doc = parse(r#"{"a":1,"b":2}"#).unwrap();
    set_member(&mut doc, "b", Json::Bool(true));
    assert!(matches!(doc.get("b"), Some(Json::Bool(true))));
    assert_eq!(doc.get("a").and_then(|v| v.as_u64()), Some(1));
}

#[test]
fn a_quarantined_file_keeps_its_name_with_a_suffix() {
    assert_eq!(quarantined_settings_path("settings.json", "abc-1"), "settings.json.corrupt-abc-1");
    assert_eq!(quarantined_settings_path("/home/u/.m/settings.json", "t"), "/home/u/.m/settings.json.corrupt-t");
    assert_eq!(temporary_settings_path("/d/settings.json", "42", "t"), "/d/settings.json.42.t.tmp");
}

#[test]
fn host_models_come_as_ids_or_objects() {
    let models = host_catalog_models(&parse(r#"["m1",{"id":"m2","name":"x"},{"name":"no id"},3]"#).unwrap());
    assert_eq!(models, Some(vec!["m1".to_owned(), "m2".to_owned()]));
    assert_eq!(host_catalog_models(&parse("[]").unwrap()), None);
    assert_eq!(host_catalog_models(&parse(r#"{"id":"m"}"#).unwrap()), None);
}

#[test]
fn saving_preferences_keeps_every_other_key() {
    let mut doc = parse(r#"{"uiPreset":"x","theme":"old","harnesses":[1]}"#).unwrap();
    with_preferences(&mut doc, "zh", "latte", "light", "two");
    let get = |k: &str| doc.get(k).and_then(|v| v.as_str()).map(str::to_owned);
    assert_eq!(get("uiPreset").as_deref(), Some("x"));
    assert_eq!(get("language").as_deref(), Some("zh"));
    assert_eq!(get("theme").as_deref(), Some("latte"));
    assert_eq!(get("themeMode").as_deref(), Some("light"));
    assert_eq!(get("markdownTone").as_deref(), Some("two"));
    assert!(doc.get("harnesses").and_then(|v| v.as_array()).is_some());
    match &doc {
        Json::Object(entries) => {
            let names: Vec<&str> = entries.iter().map(|(k, _)| k.as_str()).collect();
            assert_eq!(names, vec!["uiPreset", "theme", "harnesses", "language", "themeMode", "markdownTone"]);
        }
        _ => panic!("still an object"),
    }
}

#[test]
fn the_settings_text_is_read_by_the_library() {
    let d = martty::settings::settings_document_text(Some("{\"theme\": \"x\"}"));
    assert!(!d.quarantine);
    assert!(d.document.get("theme").is_some());
    let d = martty::settings::settings_document_text(Some("not json"));
    assert!(d.quarantine);
    assert!(matches!(d.document, Json::Object(ref m) if m.is_empty()));
    let d = martty::settings::settings_document_text(Some("  \n"));
    assert!(!d.quarantine);
    assert!(!martty::settings::settings_document_text(None).quarantine);
    assert_eq!(martty::settings::host_catalog_models_text("[\"a\", {\"id\": \"b\"}, 3]"), Some(vec!["a".to_string(), "b".to_string()]));
    assert_eq!(martty::settings::host_catalog_models_text("nope"), None);
    assert_eq!(martty::settings::host_catalog_models_text("[]"), None);
}
