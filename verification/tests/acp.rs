use martty::acp::{
    answer_of, classify, prompt_parts, is_user_echo, scan_batch, session_rows, stop_kind, tagged_config_value, turn_usage,
    union_initialize_params, initialize_params, PromptPart, Protocol, ReplayWindow, RpcId, StopReason, Usage, WireReply, INVALID_PARAMS,
};
use martty::json::Json;


fn from_json(value: &Json) -> serde_json::Value {
    match value {
        Json::Null => serde_json::Value::Null,
        Json::Bool(b) => serde_json::Value::Bool(*b),
        Json::Number(n) => serde_json::from_str(&n.text).unwrap(),
        Json::Str(s) => serde_json::Value::String(s.clone()),
        Json::Array(items) => serde_json::Value::Array(items.iter().map(from_json).collect()),
        Json::Object(entries) => {
            let mut map = serde_json::Map::new();
            for (k, v) in entries {
                map.insert(k.clone(), from_json(v));
            }
            serde_json::Value::Object(map)
        }
    }
}

fn json(text: &str) -> Json {
    martty::json::parse_json(text).unwrap()
}

#[test]
fn the_answered_version_picks_the_stack() {
    let v1 = classify(json(r#"{"protocolVersion":1,"agentInfo":{"name":"crow"}}"#)).ok().unwrap();
    assert_eq!(v1.protocol, Protocol::V1);
    assert_eq!(v1.agent_name(), "crow");
    assert_eq!(v1.describe(), "crow acp");
    let v2 = classify(json(r#"{"protocolVersion":2,"info":{"name":"agent2"}}"#)).ok().unwrap();
    assert_eq!(v2.protocol, Protocol::V2);
    assert_eq!(v2.describe(), "agent2 acp2");
    // each version reads only its own identity key
    let v2_without_info = classify(json(r#"{"protocolVersion":2,"agentInfo":{"name":"x"}}"#)).ok().unwrap();
    assert_eq!(v2_without_info.agent_name(), "acp");
}

#[test]
fn other_versions_are_refused_with_the_reason() {
    let err = classify(json(r#"{"protocolVersion":3}"#)).err().unwrap();
    assert_eq!(err.code, INVALID_PARAMS);
    assert_eq!(err.message, "agent negotiated protocolVersion 3; crow-term speaks 1 and 2");
    let err = classify(json(r#"{"agentInfo":{}}"#)).err().unwrap();
    assert_eq!(err.message, "agent answered initialize without a protocolVersion");
    let err = classify(json(r#"{"protocolVersion":"2"}"#)).err().unwrap();
    assert_eq!(err.message, "agent answered initialize without a protocolVersion");
}

#[test]
fn protocol_tags_and_identity_keys() {
    assert_eq!(Protocol::V1.tag(), "acp");
    assert_eq!(Protocol::V2.tag(), "acp2");
    assert_eq!(Protocol::V1.info_key(), "agentInfo");
    assert_eq!(Protocol::V2.info_key(), "info");
}

#[test]
fn user_echoes_are_dropped_outside_a_replay() {
    let echo = json(r#"{"sessionUpdate":"user_message_chunk","content":{}}"#);
    let other = json(r#"{"sessionUpdate":"agent_message_chunk"}"#);
    assert!(is_user_echo(&echo));
    assert!(is_user_echo(&json(r#"{"sessionUpdate":"user_message"}"#)));
    assert!(!is_user_echo(&other));
    let mut window = ReplayWindow::new();
    assert!(!window.forwards(&echo, "s1"));
    assert!(window.forwards(&other, "s1"));
    window.begin("s1");
    assert!(window.forwards(&echo, "s1"));
    assert!(!window.forwards(&echo, "s2"), "a replay is per session");
    window.begin("s1");
    window.end("s1");
    assert!(!window.forwards(&echo, "s1"), "ending a replay ends it even after two begins");
    assert!(window.forwards(&other, "s1"));
}

#[test]
fn only_the_probe_id_answers() {
    let ok = answer_of(WireReply::Result { id: RpcId::Number(0), result: json(r#"{"protocolVersion":1}"#) });
    assert!(matches!(ok, Some(Ok(_))));
    let err = answer_of(WireReply::Error { id: RpcId::Number(0), code: -32603, message: "boom".to_owned() });
    match err {
        Some(Err(e)) => {
            assert_eq!(e.code, -32603);
            assert_eq!(e.message, "initialize: boom");
        }
        _ => panic!("expected an error answer"),
    }
    assert!(answer_of(WireReply::Result { id: RpcId::Number(1), result: Json::Null }).is_none());
    assert!(answer_of(WireReply::Result { id: RpcId::Str("0".to_owned()), result: Json::Null }).is_none());
    assert!(answer_of(WireReply::Other).is_none());
}

#[test]
fn a_batch_gives_up_its_first_answer_and_keeps_the_rest_in_order() {
    let entries = vec![
        (None, "request"),
        (Some(Ok(Json::Null)), "answer"),
        (Some(Ok(Json::Bool(true))), "late answer"),
        (None, "note"),
    ];
    let (found, rest) = scan_batch(entries);
    assert!(matches!(found, Some(Ok(Json::Null))));
    assert_eq!(rest, vec!["request", "late answer", "note"]);
    let (none, all) = scan_batch(vec![(None, 1), (None, 2)]);
    assert!(none.is_none());
    assert_eq!(all, vec![1, 2]);
}

#[test]
fn stop_reasons_in_the_ui_words() {
    assert_eq!(stop_kind(&StopReason::EndTurn), "completed");
    assert_eq!(stop_kind(&StopReason::MaxTokens), "max-tokens");
    assert_eq!(stop_kind(&StopReason::MaxTurnRequests), "max-turn-requests");
    assert_eq!(stop_kind(&StopReason::Refusal), "blocked");
    assert_eq!(stop_kind(&StopReason::Cancelled), "interrupted");
    assert_eq!(stop_kind(&StopReason::Other("error".to_owned())), "error");
    assert_eq!(stop_kind(&StopReason::Unrecognized), "unknown");
}

#[test]
fn usage_adds_cache_reads_and_writes() {
    let usage = Usage {
        input_tokens: 10,
        output_tokens: 20,
        thought_tokens: None,
        cached_read_tokens: Some(3),
        cached_write_tokens: Some(4),
    };
    let t = turn_usage(&usage);
    assert_eq!((t.input, t.output, t.cached, t.reasoning), (10, 20, 7, 0));
}

#[test]
fn config_values_are_tagged() {
    let flag = from_json(&tagged_config_value(Json::Bool(true)));
    assert_eq!(flag, serde_json::from_str::<serde_json::Value>(r#"{"type":"boolean","value":true}"#).unwrap());
    let id = from_json(&tagged_config_value(Json::Str("fast".to_owned())));
    assert_eq!(id, serde_json::from_str::<serde_json::Value>(r#"{"type":"id","value":"fast"}"#).unwrap());
    let tagged = json(r#"{"type":"id","value":"x"}"#);
    assert_eq!(from_json(&tagged_config_value(tagged)), serde_json::from_str::<serde_json::Value>(r#"{"type":"id","value":"x"}"#).unwrap());
    let untagged_object = from_json(&tagged_config_value(json(r#"{"v":1}"#)));
    assert_eq!(untagged_object, serde_json::from_str::<serde_json::Value>(r#"{"type":"id","value":{"v":1}}"#).unwrap());
}

#[test]
fn listed_sessions_are_filtered_and_capped() {
    let answer = json(
        r#"{"sessions":[{"sessionId":"abc1","title":"one","updatedAt":"2024"},{"title":"no id"},{"sessionId":"xyz"},{"sessionId":"abc2"}]}"#,
    );
    let rows = session_rows(&answer, Some("abc"), 10);
    assert_eq!(rows.iter().map(|r| r.id.as_str()).collect::<Vec<_>>(), vec!["abc1", "abc2"]);
    assert_eq!(rows[0].title.as_deref(), Some("one"));
    assert_eq!(rows[0].updated_at.as_deref(), Some("2024"));
    assert_eq!(rows[1].title, None);
    let one = session_rows(&answer, None, 0);
    assert_eq!(one.iter().map(|r| r.id.as_str()).collect::<Vec<_>>(), vec!["abc1"]);
    assert!(session_rows(&json("{}"), None, 5).is_empty());
}

#[test]
fn the_union_request_keeps_version_two_and_adds_version_one_keys() {
    let v2 = json(r#"{"protocolVersion":2,"info":{"name":"martty"},"capabilities":{"auth":{}}}"#);
    let v1 = json(r#"{"protocolVersion":1,"clientInfo":{"name":"martty"},"clientCapabilities":{"fs":{}},"capabilities":{"other":1}}"#);
    let merged = from_json(&union_initialize_params(v2, v1));
    let expected: serde_json::Value = serde_json::from_str(
        r#"{"protocolVersion":2,"info":{"name":"martty"},"capabilities":{"auth":{}},"clientInfo":{"name":"martty"},"clientCapabilities":{"fs":{}}}"#,
    )
    .unwrap();
    assert_eq!(merged, expected);
    let keys: Vec<String> = match &merged {
        serde_json::Value::Object(m) => m.keys().cloned().collect(),
        _ => Vec::new(),
    };
    assert_eq!(keys, vec!["protocolVersion", "info", "capabilities", "clientInfo", "clientCapabilities"]);
}

#[test]
fn the_initialize_params_ask_for_version_two() {
    let v1 = json(r#"{"protocolVersion":1,"clientInfo":{"name":"martty","version":"0.1.0"},"clientCapabilities":{"fs":{"readTextFile":false}}}"#);
    let params = from_json(&initialize_params("martty", "0.1.0", v1));
    let expected: serde_json::Value = serde_json::from_str(
        r#"{"protocolVersion":2,"info":{"name":"martty","version":"0.1.0"},"capabilities":{"auth":{}},"clientInfo":{"name":"martty","version":"0.1.0"},"clientCapabilities":{"fs":{"readTextFile":false}}}"#,
    )
    .unwrap();
    assert_eq!(params, expected);
    let keys: Vec<String> = params.as_object().unwrap().keys().cloned().collect();
    assert_eq!(keys, vec!["protocolVersion", "info", "capabilities", "clientInfo", "clientCapabilities"]);
    let info_keys: Vec<String> = params["info"].as_object().unwrap().keys().cloned().collect();
    assert_eq!(info_keys, vec!["name", "version"]);
    let alone = from_json(&initialize_params("crow", "9.9", Json::Null));
    assert_eq!(alone["protocolVersion"], serde_json::Value::from(2u64));
    assert_eq!(alone["info"]["name"], serde_json::Value::from("crow"));
    assert_eq!(alone["info"]["version"], serde_json::Value::from("9.9"));
}

#[test]
fn prompt_parts_drop_empty_text_and_route_images() {
    use_parts();
}

fn use_parts() {
    let img = || martty::staging::Attachment {
        token: "[image 1]".into(),
        name: "a.png".into(),
        media_type: "image/png".into(),
        data: vec![1],
        path: None,
    };
    let blocks = vec![
        martty::staging::StagedBlock::Text("look".into()),
        martty::staging::StagedBlock::Image(img()),
        martty::staging::StagedBlock::Text(String::new()),
        martty::staging::StagedBlock::Image(img()),
    ];
    assert_eq!(prompt_parts(&blocks, true), vec![PromptPart::Text(0), PromptPart::Image(1), PromptPart::Image(3)]);
    assert_eq!(prompt_parts(&blocks, false), vec![PromptPart::Text(0), PromptPart::Link(1), PromptPart::Link(3)]);
    assert!(prompt_parts(&vec![], false).is_empty());
}
