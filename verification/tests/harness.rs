use martty::harness::{all, current_id, selected, Harness, HarnessEntry};
use martty::json::Json;


/// The settings document a file with this text gives: `None` when it is not JSON.
fn doc(text: &str) -> Option<Json> {
    martty::json::parse_json(text)
}

fn pick(text: &str) -> Option<Harness> {
    selected(doc(text).as_ref())
}

fn offer(text: &str) -> Vec<HarnessEntry> {
    all(doc(text).as_ref())
}

const CROW: &str = r#"{"harnesses":[{"id":"crow-cli","label":"crow-cli","command":"/home/thomas/.local/bin/crow-cli","args":["acp"],"env":{}}],"defaultHarness":"crow-cli","theme":"iceberg"}"#;

#[test]
fn default_harness_selects_its_entry() {
    let harness = pick(CROW).expect("crow-cli is the default harness");
    assert_eq!(
        harness.argv(),
        vec!["/home/thomas/.local/bin/crow-cli".to_owned(), "acp".to_owned()]
    );
    assert!(harness.env.is_empty());
}

#[test]
fn env_and_args_survive_the_round_trip() {
    let harness = pick(
        r#"{"harnesses":[{"id":"h","command":"/bin/h","args":["--one","two"],"env":{"KEY":"value","EMPTY":""}}],"defaultHarness":"h"}"#,
    )
    .unwrap();
    assert_eq!(harness.args, vec!["--one".to_owned(), "two".to_owned()]);
    assert_eq!(
        harness.env,
        vec![("KEY".to_owned(), "value".to_owned()), ("EMPTY".to_owned(), String::new())]
    );
}

#[test]
fn legacy_active_harness_is_honored_only_while_default_is_absent() {
    assert_eq!(
        pick(r#"{"harnesses":[{"id":"h","command":"/bin/h"}],"activeHarness":"h"}"#)
            .map(|h| h.command)
            .as_deref(),
        Some("/bin/h")
    );
    // An explicit null default means "use the bundled fallback".
    assert!(pick(
        r#"{"harnesses":[{"id":"h","command":"/bin/h"}],"defaultHarness":null,"activeHarness":"h"}"#
    )
    .is_none());
}

#[test]
fn unselectable_settings_fall_through_to_the_bundled_agent() {
    for settings in [
        "{}",
        r#"{"defaultHarness":"nope","harnesses":[{"id":"h","command":"/bin/h"}]}"#,
        r#"{"defaultHarness":"h","harnesses":[{"id":"h","command":"  "}]}"#,
        r#"{"defaultHarness":"h"}"#,
        "not json",
    ] {
        assert!(pick(settings).is_none(), "must not select: {settings}");
    }
    // A settings file that is absent gives no document at all.
    assert!(selected(None).is_none());
}

#[test]
fn npx_harnesses_lose_the_reinstall_flags() {
    assert_eq!(
        pick(r#"{"harnesses":[{"id":"h","command":"npx","args":["--yes","-p","@x/agent","--prefer-offline","acp"]}],"defaultHarness":"h"}"#)
            .unwrap()
            .args,
        vec!["-p".to_owned(), "@x/agent".to_owned(), "acp".to_owned()]
    );
}

const DUAL: &str = r#"{"harnesses":[
    {"id":"crow-cli","label":"crow-cli","command":"/bin/crow-cli","args":["acp"],"env":{}},
    {"id":"crow-cli-v2","label":"crow-cli (ACP v2)","command":"/bin/crow-cli","args":["acp2"],"env":{}}
],"defaultHarness":"crow-cli","theme":"iceberg"}"#;

#[test]
fn all_offers_every_entry_in_file_order_with_its_recipe() {
    let entries = offer(DUAL);
    assert_eq!(
        entries.iter().map(|entry| entry.id.as_str()).collect::<Vec<_>>(),
        vec!["crow-cli", "crow-cli-v2"]
    );
    assert_eq!(entries[1].label, "crow-cli (ACP v2)");
    assert_eq!(entries[1].command_text(), "/bin/crow-cli acp2");
    assert_eq!(entries[0].command_text(), "/bin/crow-cli acp");
    assert_eq!(current_id(doc(DUAL).as_ref()).as_deref(), Some("crow-cli"));
}

#[test]
fn all_skips_the_entries_a_picker_could_not_act_on() {
    for settings in [
        "not json",
        "{}",
        r#"{"harnesses":"nope"}"#,
        r#"{"harnesses":[{"command":"/bin/h"}]}"#,
        r#"{"harnesses":[{"id":"h","command":"  "}]}"#,
    ] {
        assert!(offer(settings).is_empty(), "must offer nothing: {settings}");
    }
    assert!(all(None).is_empty());
    assert_eq!(
        offer(r#"{"harnesses":[{"id":"ok","command":"/bin/ok"},{"id":"bad","command":""}]}"#)
            .iter()
            .map(|entry| entry.id.as_str())
            .collect::<Vec<_>>(),
        vec!["ok"]
    );
}

#[test]
fn a_label_falls_back_to_the_id_and_the_id_to_the_default() {
    let text = r#"{"harnesses":[{"id":"plain","command":"/bin/p"},{"id":"spaced","label":"  ","command":"/bin/s"}],"activeHarness":"plain"}"#;
    let entries = offer(text);
    assert_eq!(entries[0].label, "plain");
    assert_eq!(entries[1].label, "spaced", "a blank label is no label");
    assert_eq!(current_id(doc(text).as_ref()).as_deref(), Some("plain"));
}

#[test]
fn an_npx_path_is_recognised_by_its_file_name() {
    let h = pick(r#"{"harnesses":[{"id":"h","command":"/usr/local/bin/NPX.CMD","args":["--yes","x"]}],"defaultHarness":"h"}"#).unwrap();
    assert_eq!(h.args, vec!["x".to_owned()]);
    let other = pick(r#"{"harnesses":[{"id":"h","command":"/bin/npxx","args":["--yes"]}],"defaultHarness":"h"}"#).unwrap();
    assert_eq!(other.args, vec!["--yes".to_owned()]);
}

#[test]
fn env_entries_with_an_empty_name_are_dropped() {
    let h = pick(r#"{"harnesses":[{"id":"h","command":"/bin/h","env":{"":"x","A":1,"B":"b"}}],"defaultHarness":"h"}"#).unwrap();
    assert_eq!(h.env, vec![("B".to_owned(), "b".to_owned())]);
}

#[test]
fn the_settings_text_selects_the_harness() {
    let text = r#"{"harnesses":[{"id":"h","command":"/bin/h","args":["acp"]}],"defaultHarness":"h"}"#;
    assert_eq!(martty::harness::selected_text(Some(text)).map(|h| h.command), Some("/bin/h".to_string()));
    assert_eq!(martty::harness::all_text(Some(text)).len(), 1);
    assert_eq!(martty::harness::current_id_text(Some(text)).as_deref(), Some("h"));
    assert!(martty::harness::selected_text(Some("not json")).is_none());
    assert!(martty::harness::all_text(None).is_empty());
    assert!(martty::harness::current_id_text(None).is_none());
}
