use martty::json::Json;
use martty::mcp::{
    crow_config_text, expand_home, from_crow_config, from_settings_json, load, mcp_servers_block, McpServer,
};


/// The settings document a file with this text gives.
fn settings(text: &str) -> Option<Json> {
    martty::json::parse_json(text)
}

const CROW_YAML: &str = "mcpServers:\n  crow-mcp:\n    transport: stdio\n    command: /bin/crow-mcp\n    args: [mcp]\n  remote:\n    url: \"http://localhost:2769/mcp\"\n";

const SETTINGS_JSON: &str = "{\"mcpServers\": {\"playwright\": {\"transport\": \"stdio\", \"command\": \"npx\", \"args\": [\"-y\", \"@playwright/mcp\"], \"env\": {\"FOO\": \"bar\"}}, \"stream\": {\"transport\": \"sse\", \"url\": \"http://x/sse\"}}}";

#[test]
fn settings_json_wins_over_crow_config() {
    let servers = from_settings_json(settings(SETTINGS_JSON).as_ref()).unwrap();
    assert_eq!(servers.len(), 2, "settings.json key present must not fall through");
    assert!(from_crow_config(Some(CROW_YAML)).is_some());
}

#[test]
fn absent_settings_key_falls_through_to_crow_config() {
    assert!(from_settings_json(settings("{\"theme\": \"iceberg\"}").as_ref()).is_none());
    let servers = from_crow_config(Some(CROW_YAML)).unwrap();
    assert_eq!(servers.len(), 2);
    match &servers[0] {
        McpServer::Stdio { name, command, args, .. } => {
            assert_eq!(name, "crow-mcp");
            assert_eq!(command, "/bin/crow-mcp");
            assert_eq!(args, &vec!["mcp".to_owned()]);
        }
        _ => panic!("expected stdio"),
    }
    // url without transport defaults to http
    assert!(matches!(&servers[1], McpServer::Http { name, .. } if name == "remote"));
}

const DUPLICATE_KEY_YAML: &str = "mcpServers:\n  crow-mcp:\n    #transport: http\n    transport: stdio\n    command: /bin/crow-cli\n    args:\n    - mcp\n    - '--include-tools'\n    - execute\n  #playwright:\n  #  command: npx\n\n# Yo!\nmodels:\n  qwen3.8-max:\n    model: qwen3.8-max\n  qwen3.8-max:\n    model: qwen3.8-max\ndb_uri: sqlite:////~/.agents/crow/crow.db\n";

#[test]
fn duplicate_keys_elsewhere_do_not_cost_the_servers() {
    assert!(
        yaml_rust2::YamlLoader::load_from_str(DUPLICATE_KEY_YAML).is_err(),
        "fixture must actually trip the strict parser"
    );
    let servers =
        from_crow_config(Some(DUPLICATE_KEY_YAML)).expect("tolerant parse must recover the block");
    assert_eq!(servers.len(), 1, "commented-out playwright is not a server");
    match &servers[0] {
        McpServer::Stdio { name, command, args, .. } => {
            assert_eq!(name, "crow-mcp");
            assert_eq!(command, "/bin/crow-cli");
            assert_eq!(
                args,
                &vec!["mcp".to_owned(), "--include-tools".to_owned(), "execute".to_owned()]
            );
        }
        _ => panic!("expected stdio"),
    }
}

#[test]
fn transport_branch_order_matches_crow_cli_tui() {
    let doc = settings("{\"mcpServers\": {\"a\": {\"transport\": \"sse\", \"url\": \"http://x/sse\"}, \"b\": {\"transport\": \"http\", \"url\": \"http://x/mcp\"}, \"c\": {\"url\": \"http://x/mcp\"}, \"d\": {\"command\": \"/bin/x\"}, \"e\": {\"nothing\": true}}}");
    let servers = from_settings_json(doc.as_ref()).unwrap();
    assert_eq!(servers.len(), 4, "entry with neither url nor command is skipped");
    assert!(matches!(&servers[0], McpServer::Sse { .. }));
    assert!(matches!(&servers[1], McpServer::Http { .. }));
    assert!(matches!(&servers[2], McpServer::Http { .. }));
    assert!(matches!(&servers[3], McpServer::Stdio { .. }));
}

#[test]
fn missing_files_mean_toolless_not_error() {
    assert!(from_settings_json(None).is_none());
    assert!(from_crow_config(None).is_none());
}

#[test]
fn env_and_headers_keep_their_string_entries() {
    let doc = settings("{\"mcpServers\": {\"p\": {\"command\": \"npx\", \"env\": {\"FOO\": \"bar\", \"N\": 1}}, \"h\": {\"url\": \"http://x\", \"headers\": {\"Authorization\": \"Bearer t\"}}}}");
    let servers = from_settings_json(doc.as_ref()).unwrap();
    match &servers[0] {
        McpServer::Stdio { env, .. } => assert_eq!(env, &vec![("FOO".to_owned(), "bar".to_owned())]),
        _ => panic!("expected stdio"),
    }
    match &servers[1] {
        McpServer::Http { headers, .. } => {
            assert_eq!(headers, &vec![("Authorization".to_owned(), "Bearer t".to_owned())])
        }
        _ => panic!("expected http"),
    }
}

#[test]
fn one_unusable_crow_entry_spoils_the_crow_supply() {
    let yaml = "mcpServers:\n  ok:\n    command: /bin/ok\n  broken:\n    transport: stdio\n";
    assert!(from_crow_config(Some(yaml)).is_none());
    let settings_doc = settings("{\"mcpServers\": {\"ok\": {\"command\": \"/bin/ok\"}, \"broken\": {\"transport\": \"stdio\"}}}");
    assert_eq!(from_settings_json(settings_doc.as_ref()).unwrap().len(), 1);
}

#[test]
fn the_block_is_cut_at_the_next_top_level_key() {
    let text = "models:\n  a: b\nmcpServers:\n  x:\n    command: /bin/x\n\n  # note\n\tindented\nother: 1\n  y: 2\n";
    assert_eq!(
        mcp_servers_block(text).as_deref(),
        Some("mcpServers:\n  x:\n    command: /bin/x\n\n  # note\n\tindented")
    );
    assert!(mcp_servers_block("models:\n  a: b\n").is_none());
    assert_eq!(mcp_servers_block("mcpServers: {}\r\nnext: 1").as_deref(), Some("mcpServers: {}"));
}

#[test]
fn the_whole_config_is_read_when_it_parses() {
    assert_eq!(crow_config_text(CROW_YAML).as_deref(), Some(CROW_YAML));
}

#[test]
fn settings_servers_come_before_crow_servers() {
    let from_settings = from_settings_json(settings(SETTINGS_JSON).as_ref());
    let from_crow = from_crow_config(Some(CROW_YAML));
    let chosen = load(from_settings, from_crow);
    assert_eq!(chosen.len(), 2);
    assert!(matches!(&chosen[1], McpServer::Sse { name, .. } if name == "stream"));
    let fallback = load(None, from_crow_config(Some(CROW_YAML)));
    assert!(matches!(&fallback[0], McpServer::Stdio { name, .. } if name == "crow-mcp"));
    assert!(load(None, None).is_empty());
}

#[test]
fn home_expansion_joins_the_rest_of_the_path() {
    assert_eq!(expand_home("~/.agents/crow/config.yaml", Some("/home/t")), "/home/t/.agents/crow/config.yaml");
    assert_eq!(expand_home("~/x", Some("/home/t/")), "/home/t/x");
    assert_eq!(expand_home("~//x", Some("/h")), "/h/x");
    assert_eq!(expand_home("~", Some("/h")), "/h/");
    assert_eq!(expand_home("~/x", None), "~/x");
    assert_eq!(expand_home("/etc/x", Some("/h")), "/etc/x");
}

#[test]
fn a_present_key_that_is_no_object_declares_no_servers() {
    assert_eq!(from_settings_json(settings("{\"mcpServers\": []}").as_ref()).map(|v| v.len()), Some(0));
    assert_eq!(from_settings_json(settings("{\"mcpServers\": null}").as_ref()).map(|v| v.len()), Some(0));
    assert!(from_settings_json(settings("{\"theme\": \"x\"}").as_ref()).is_none());
}

#[test]
fn crow_entries_with_non_string_names_are_skipped() {
    let yaml = "mcpServers:\n  1:\n    command: /bin/one\n  named:\n    command: /bin/named\n";
    let servers = from_crow_config(Some(yaml)).unwrap();
    assert_eq!(servers.len(), 1);
    assert!(matches!(&servers[0], McpServer::Stdio { name, .. } if name == "named"));
    assert!(from_crow_config(Some("mcpServers: [a, b]\n")).is_none());
    assert!(from_crow_config(Some("other: 1\n")).is_none());
    assert!(from_crow_config(Some("")).is_none());
}

#[test]
fn the_settings_text_supplies_the_servers() {
    assert_eq!(martty::mcp::from_settings_text(Some("{\"mcpServers\": {\"a\": {\"command\": \"/bin/a\"}}}")).map(|v| v.len()), Some(1));
    assert!(martty::mcp::from_settings_text(Some("{}")).is_none());
    assert!(martty::mcp::from_settings_text(Some("{")).is_none());
    assert!(martty::mcp::from_settings_text(None).is_none());
}
