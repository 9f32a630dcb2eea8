use martty::harness::{Harness, HarnessEntry};
use martty::menu::{
    accept_entry, builtin_option_current, slash_matches, snap_slash_sel, AcceptAction, BuiltinCommand,
    MenuSources, OptionCurrents, PluginCommand, PluginCommandInput, PluginCommandOption, SkillInfo,
};
use martty::options::{builtin_argument_options, ArgumentSources, AuthMethod, CatalogModel, PaletteRow, UiPluginRow};
use martty::picker::SlashEntry;
use martty::slash_catalog::CatalogPreset;

fn s(v: &str) -> String {
    v.to_owned()
}

fn arguments() -> ArgumentSources {
    ArgumentSources {
        current_model: s("deepseek-v4"),
        models: Vec::new(),
        host_models: None,
        presets: Vec::new(),
        harnesses: vec![HarnessEntry {
            id: s("codex"),
            label: s("Codex"),
            harness: Harness { command: s("/bin/codex"), args: vec![s("acp"), s("--fast")], env: Vec::new() },
        }],
        efforts: Vec::new(),
        permissions: Vec::new(),
        theme_toggle: (s("toggle dark"), s("switch dark/light")),
        palettes: vec![
            PaletteRow { id: s("iceberg"), label: s("Iceberg"), loaded: true, builtin: true },
            PaletteRow { id: s("neon"), label: s("Neon"), loaded: false, builtin: false },
            PaletteRow { id: s("dusk"), label: s("Dusk"), loaded: true, builtin: false },
        ],
        ui_plugins: vec![UiPluginRow { id: s("board"), label: s("Board"), source: s("host"), status: s("running") }],
        auth_methods: vec![
            AuthMethod { id: s("token"), name: Some(s("API token")), description: None },
            AuthMethod { id: s("oauth"), name: None, description: Some(s("browser sign-in")) },
        ],
    }
}

fn builtin(name: &str) -> BuiltinCommand {
    BuiltinCommand { name: s(name), usage: format!("/{name}"), desc: format!("{name} command") }
}

fn sources() -> MenuSources {
    MenuSources {
        builtins: vec![builtin("model"), builtin("mode"), builtin("help"), builtin("theme"), builtin("agent")],
        plugin_commands: vec![
            PluginCommand {
                name: s("deploy"),
                description: s("ship it"),
                input: Some(PluginCommandInput {
                    hint: s("target"),
                    options: vec![
                        PluginCommandOption { disabled: false, value: s("prod"), label: Some(s("Production")), description: None },
                        PluginCommandOption { disabled: true, value: s("staging"), label: None, description: Some(s("off")) },
                    ],
                }),
            },
            PluginCommand { name: s("help"), description: s("shadowed"), input: None },
            PluginCommand { name: s("board"), description: s("open the board"), input: None },
        ],
        skills: vec![
            SkillInfo { name: s("mo"), description: s("a skill"), input_hint: None, client_command: false },
            SkillInfo { name: s("Logout"), description: s("never listed"), input_hint: None, client_command: false },
            SkillInfo { name: s("review"), description: s("review code"), input_hint: Some(s("<pr>")), client_command: false },
            SkillInfo { name: s("board"), description: s("shadowed by the plugin"), input_hint: None, client_command: false },
            SkillInfo { name: s("compact"), description: s("client side"), input_hint: None, client_command: true },
        ],
        theme_sections: (s("Mode"), s("Palettes")),
        arguments: arguments(),
    }
}

fn names(entries: &[SlashEntry]) -> Vec<String> {
    entries.iter().map(|e| e.name.clone()).collect()
}

#[test]
fn a_line_without_a_slash_has_no_menu() {
    assert!(slash_matches("model", &sources()).is_empty());
    assert!(slash_matches("", &sources()).is_empty());
}

#[test]
fn commands_list_builtins_first_then_plugins_then_skills() {
    let all = slash_matches("/", &sources());
    assert_eq!(
        names(&all),
        vec!["model", "mode", "help", "theme", "agent", "board", "deploy", "compact", "mo", "review"],
        "builtins keep table order; plugins and skills are sorted by name; shadowed and logout entries are gone"
    );
    let compact = all.iter().find(|e| e.name == "compact").unwrap();
    assert!(compact.plugin && !compact.skill, "a client command counts as a plugin command");
    let review = all.iter().find(|e| e.name == "review").unwrap();
    assert!(review.skill);
    assert_eq!(review.usage, "/review <pr>");
    let deploy = all.iter().find(|e| e.name == "deploy").unwrap();
    assert_eq!(deploy.usage, "/deploy [target]");
}

#[test]
fn an_exact_match_comes_before_longer_names() {
    let hits = slash_matches("/mo", &sources());
    assert_eq!(names(&hits), vec!["mo", "model", "mode"]);
}

#[test]
fn a_plugin_command_offers_its_own_options() {
    let hits = slash_matches("/deploy p", &sources());
    assert_eq!(hits.len(), 1);
    assert_eq!(hits[0].usage, "Production");
    assert_eq!(hits[0].completion.as_deref(), Some("/deploy prod"));
    assert!(hits[0].plugin);
    let all = slash_matches("/deploy ", &sources());
    assert_eq!(all.len(), 2);
    assert!(all[1].disabled);
    assert!(slash_matches("/deploy prod now", &sources()).is_empty(), "an argument with a space has no menu");
}

#[test]
fn the_theme_menu_is_split_into_sections() {
    let hits = slash_matches("/theme ", &sources());
    let sections: Vec<Option<String>> = hits.iter().map(|e| e.section.clone()).collect();
    assert_eq!(sections, vec![Some(s("Mode")), Some(s("Palettes")), Some(s("Palettes")), Some(s("Palettes"))]);
    assert_eq!(hits[0].usage, "toggle dark");
    assert_eq!(hits[2].desc, "theme plugin · stopped");
    assert_eq!(hits[1].desc, "builtin");
    assert_eq!(hits[3].desc, "theme plugin");
}

#[test]
fn argument_rows_fall_back_to_the_stock_lists() {
    let src = arguments();
    let model = builtin_argument_options("model", &src);
    assert_eq!(model[0].0, "deepseek-v4-flash");
    assert_eq!(model.len(), 5, "the model in effect is already a stock model");

    let mut other = arguments();
    other.current_model = s("my-model");
    let model = builtin_argument_options("model", &other);
    assert_eq!(model[0], (s("my-model"), s("my-model"), s("")), "the model in effect goes first");
    assert_eq!(model.len(), 6);

    other.models = vec![CatalogModel { id: s("m1"), name: s("Model One"), provider: s("acme") }];
    let model = builtin_argument_options("model", &other);
    assert_eq!(model, vec![(s("my-model"), s("my-model"), s("")), (s("m1"), s("Model One"), s("acme"))]);

    let agent = builtin_argument_options("agent", &src);
    assert_eq!(agent.len(), 4);
    assert_eq!(agent[0].0, "standard");
    other.presets = vec![CatalogPreset { id: s("p"), name: s("P"), description: s("preset"), broken: false }];
    assert_eq!(builtin_argument_options("agent", &other), vec![(s("p"), s("P"), s("preset"))]);

    let harness = builtin_argument_options("harness", &src);
    assert_eq!(harness, vec![(s("codex"), s("Codex"), s("/bin/codex acp --fast"))]);

    let effort = builtin_argument_options("effort", &src);
    assert_eq!(effort.iter().map(|r| r.0.as_str()).collect::<Vec<_>>(), vec!["off", "high", "max"]);
    other.efforts = vec![s("low")];
    assert_eq!(builtin_argument_options("effort", &other), vec![(s("low"), s("low"), s(""))]);

    let permission = builtin_argument_options("permission", &src);
    assert_eq!(permission[2].0, "danger-full-access");

    let ui = builtin_argument_options("ui", &src);
    assert_eq!(ui, vec![(s("board"), s("Board"), s("host · running"))]);

    let auth = builtin_argument_options("auth", &src);
    assert_eq!(auth, vec![(s("token"), s("API token"), s("")), (s("oauth"), s("oauth"), s("browser sign-in"))]);

    assert_eq!(builtin_argument_options("lang", &src)[0], (s("zh"), s("zh"), s("中文")));
    assert_eq!(builtin_argument_options("session", &src).len(), 3);
    assert_eq!(builtin_argument_options("plan", &src).len(), 2);
    assert_eq!(builtin_argument_options("liang", &src).len(), 2);
    assert!(builtin_argument_options("help", &src).is_empty());
}

fn currents() -> OptionCurrents {
    OptionCurrents {
        model: s("deepseek-v3.2"),
        effort: None,
        agent: s("standard"),
        harness: None,
        theme: s("dusk"),
        permission: s("read-only"),
    }
}

#[test]
fn the_selection_snaps_to_the_option_in_effect() {
    let models = slash_matches("/model ", &sources());
    assert_eq!(builtin_option_current(&models, &currents()), Some(s("deepseek-v3.2")));
    assert_eq!(snap_slash_sel(&models, &currents()), 2);
    let themes = slash_matches("/theme ", &sources());
    assert_eq!(snap_slash_sel(&themes, &currents()), 3);
    let commands = slash_matches("/", &sources());
    assert_eq!(builtin_option_current(&commands, &currents()), None);
    assert_eq!(snap_slash_sel(&commands, &currents()), 0);
    let plugin = slash_matches("/deploy ", &sources());
    assert_eq!(builtin_option_current(&plugin, &currents()), None, "plugin options have no value in effect");
}

fn entry(name: &str, skill: bool, plugin: bool, completion: Option<&str>) -> SlashEntry {
    SlashEntry {
        disabled: false,
        name: s(name),
        usage: String::new(),
        desc: String::new(),
        skill,
        plugin,
        section: None,
        completion: completion.map(s),
    }
}

#[test]
fn accepting_an_entry_runs_completes_or_submits() {
    match accept_entry(&entry("model", false, false, Some("/model deepseek-v4")), "/mo") {
        AcceptAction::Run { name, arg } => {
            assert_eq!(name, "model");
            assert_eq!(arg, "deepseek-v4");
        },
        _ => panic!("a builtin runs"),
    }
    match accept_entry(&entry("deploy", false, true, None), "/deploy  prod ") {
        AcceptAction::InvokePlugin { line, name, args } => {
            assert_eq!(line, "/deploy  prod ");
            assert_eq!(name, "deploy");
            assert_eq!(args, "prod");
        },
        _ => panic!("a plugin command is invoked"),
    }
    assert!(matches!(accept_entry(&entry("review", true, false, None), "/rev"), AcceptAction::Complete(t) if t == "/review "));
    assert!(matches!(accept_entry(&entry("review", true, false, None), "/review 42"), AcceptAction::Submit(t) if t == "/review 42"));
    let mut off = entry("model", false, false, None);
    off.disabled = true;
    assert!(matches!(accept_entry(&off, "/model"), AcceptAction::Nothing));
}
