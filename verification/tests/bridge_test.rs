//! Handlers, turns and dispatch.

use acp_bridge::acp::Outbox;
use acp_bridge::bridge::{
    evict_idle_sessions, eviction_interval_secs, handle_initialize, handle_session_cancel,
    handle_session_end, handle_session_new, handle_session_set_config_option,
    handle_session_set_mode, open_session, require_text, sanitize_cwd, Bridge, VERSION,
};
use acp_bridge::config::Environment;
use acp_bridge::dispatch::handle_request;
use acp_bridge::json::{parse, Json};
use acp_bridge::llm::LlmConfig;
use acp_bridge::protocol::JsonRpcRequest;
use acp_bridge::turn::{
    advance_with_id, arguments_or_raw, arguments_text, begin_turn, extract_response_text,
    extract_tool_calls, handle_session_prompt, model_request, tool_arguments, tool_name, user_text,
    PromptTurn, TurnEvent, TurnStep, MAX_TOOL_ROUNDS,
};

fn json(text: &str) -> Json {
    parse(text).unwrap()
}

fn config(max_history: usize, max_sessions: usize) -> LlmConfig {
    LlmConfig::from_env(Environment {
        llm_base_url: Some("http://h/v1".to_string()),
        ollama_base_url: None,
        llm_model: Some("base".to_string()),
        ollama_model: None,
        llm_api_key: None,
        ollama_api_key: None,
        llm_temperature: None,
        llm_max_tokens: None,
        llm_timeout: None,
        llm_max_history_turns: Some(max_history.to_string()),
        llm_max_sessions: Some(max_sessions.to_string()),
        llm_session_idle_timeout: None,
    })
}

/// A bridge with the session "s1", whose client was told so.
fn bridge_with_session() -> (Bridge, Outbox) {
    let mut bridge = Bridge::new(config(50, 0));
    let mut out = Outbox::new();
    open(&mut bridge, "s1", &mut out);
    out.take_lines();
    (bridge, out)
}

fn open(bridge: &mut Bridge, id: &str, out: &mut Outbox) {
    open_session(
        bridge,
        &Json::unsigned(1),
        &json("{\"cwd\": \"/w\"}"),
        id.to_string(),
        Some("be kind".to_string()),
        100,
        out,
    );
}

fn messages(out: &mut Outbox) -> Vec<Json> {
    out.take_lines().iter().map(|l| parse(l).unwrap()).collect()
}

fn only(out: &mut Outbox) -> Json {
    let mut all = messages(out);
    assert_eq!(all.len(), 1);
    all.remove(0)
}

fn at<'a>(value: &'a Json, path: &[&str]) -> &'a Json {
    let mut now = value;
    for key in path {
        now = now.get(key).unwrap();
    }
    now
}

fn code(message: &Json) -> String {
    at(message, &["error", "code"]).render()
}

fn told(message: &Json) -> String {
    at(message, &["error", "message"]).as_str().unwrap().to_string()
}

/// What a list of messages to the client says, in short.
fn summary(messages: &[Json]) -> Vec<String> {
    messages
        .iter()
        .map(|m| match m.get("result") {
            Some(result) => format!("{} -> {}", at(m, &["id"]).render(), result.render()),
            None => {
                let update = at(m, &["params", "update"]);
                let kind = update.text_at("sessionUpdate").unwrap();
                let more = match kind.as_str() {
                    "tool_call" => format!(
                        "{} {} {}",
                        update.text_at("toolCallId").unwrap(),
                        update.text_at("title").unwrap(),
                        update.text_at("kind").unwrap()
                    ),
                    "tool_call_update" => format!(
                        "{} {}",
                        update.text_at("toolCallId").unwrap(),
                        update.text_at("status").unwrap()
                    ),
                    _ => at(update, &["content", "text"]).as_str().unwrap().to_string(),
                };
                format!("{kind}: {more}")
            }
        })
        .collect()
}

fn history(bridge: &Bridge, id: &str) -> Vec<String> {
    bridge.sessions.get(id).unwrap().messages.iter().map(|m| m.render()).collect()
}

// --- initialize -----------------------------------------------------------

#[test]
fn the_bridge_introduces_itself() {
    let mut out = Outbox::new();
    handle_initialize(&config(1, 1), &json("\"x\""), &json("{}"), &mut out);
    assert_eq!(VERSION, "0.3.0");
    assert_eq!(
        out.take_lines(),
        vec!["{\"id\":\"x\",\"jsonrpc\":\"2.0\",\"result\":{\"agentCapabilities\":{\"loadSession\":false,\"mcpCapabilities\":{\"http\":false,\"sse\":false},\"promptCapabilities\":{\"audio\":false,\"embeddedContext\":false,\"image\":false},\"sessionCapabilities\":{\"close\":{}}},\"agentInfo\":{\"name\":\"acp-bridge (base)\",\"version\":\"0.3.0\"},\"authMethods\":[],\"protocolVersion\":1}}\n"]
    );
}

#[test]
fn the_version_is_negotiated() {
    for (asked, agreed) in [
        ("{}", 1),
        ("{\"protocolVersion\": 0}", 0),
        ("{\"protocolVersion\": 1}", 1),
        ("{\"protocolVersion\": 7}", 1),
        ("{\"protocolVersion\": -3}", 1),
        ("{\"protocolVersion\": 0.0}", 1),
        ("{\"protocolVersion\": \"0\"}", 1),
        ("[]", 1),
    ] {
        let mut out = Outbox::new();
        handle_initialize(&config(1, 1), &Json::unsigned(1), &json(asked), &mut out);
        let got = only(&mut out);
        assert_eq!(at(&got, &["result", "protocolVersion"]).as_u64(), Some(agreed), "{asked}");
    }
}

// --- session/new ----------------------------------------------------------

#[test]
fn a_session_is_opened() {
    let mut bridge = Bridge::new(config(50, 0));
    bridge.cached_models_write(vec!["m1".to_string()]);
    let mut out = Outbox::new();
    open(&mut bridge, "s1", &mut out);
    let answer = only(&mut out);
    let result = at(&answer, &["result"]);
    assert_eq!(result.text_at("sessionId").unwrap(), "s1");
    assert_eq!(at(result, &["modes", "currentModeId"]).as_str(), Some("agent"));
    let options = at(result, &["configOptions"]).as_array().unwrap();
    assert_eq!(options[1].text_at("currentValue").unwrap(), "base");
    assert_eq!(at(&options[1], &["options"]).as_array().unwrap().len(), 2);
    let session = bridge.sessions.get("s1").unwrap();
    assert_eq!(session.working_dir, "/w");
    assert_eq!(session.last_active, 100);
    assert_eq!(history(&bridge, "s1"), vec!["{\"content\":\"be kind\",\"role\":\"system\"}"]);
}

#[test]
fn fresh_ids_are_random_uuids() {
    let mut bridge = Bridge::new(config(50, 0));
    let mut out = Outbox::new();
    let mut seen: Vec<String> = Vec::new();
    for _ in 0..20 {
        handle_session_new(&mut bridge, &Json::unsigned(1), &json("{}"), None, 0, &mut out);
        let id = at(&only(&mut out), &["result", "sessionId"]).as_str().unwrap().to_string();
        assert_eq!(id.len(), 36);
        for (i, c) in id.chars().enumerate() {
            match i {
                8 | 13 | 18 | 23 => assert_eq!(c, '-'),
                14 => assert_eq!(c, '4'),
                19 => assert!("89ab".contains(c)),
                _ => assert!(c.is_ascii_digit() || ('a'..='f').contains(&c)),
            }
        }
        assert!(!seen.contains(&id));
        assert_eq!(bridge.sessions.get(&id).unwrap().working_dir, "/tmp");
        seen.push(id);
    }
    assert_eq!(bridge.sessions.len(), 20);
}

#[test]
fn the_session_limit_is_kept() {
    let mut bridge = Bridge::new(config(50, 2));
    let mut out = Outbox::new();
    open(&mut bridge, "a", &mut out);
    open(&mut bridge, "b", &mut out);
    out.take_lines();
    open(&mut bridge, "c", &mut out);
    let refusal = only(&mut out);
    assert_eq!(code(&refusal), "-32004");
    assert_eq!(told(&refusal), "Session limit reached (max: 2)");
    assert_eq!(bridge.sessions.len(), 2);
    handle_session_end(&mut bridge, &Json::unsigned(2), &json("{\"sessionId\": \"a\"}"), &mut out);
    out.take_lines();
    open(&mut bridge, "c", &mut out);
    assert!(only(&mut out).get("result").is_some());
}

#[test]
fn paths_are_sanitised() {
    assert_eq!(sanitize_cwd("/home/a_b/c-d.e/~x y"), "/home/a_b/c-d.e/~x y");
    assert_eq!(sanitize_cwd("/a;b\n'c'`d`$(e)"), "/abcde");
    assert_eq!(sanitize_cwd("/données/数据/٣"), "/données/数据/٣");
    assert_eq!(sanitize_cwd("/x😀\u{202e}y"), "/xy");
    assert_eq!(sanitize_cwd(""), "");
    assert_eq!(sanitize_cwd("';"), "");
    for code in 0..128u8 {
        let c = char::from(code);
        let stays = c.is_ascii_alphanumeric() || "/-_. ~".contains(c);
        assert_eq!(sanitize_cwd(&c.to_string()), if stays { c.to_string() } else { String::new() });
    }
    let once = sanitize_cwd("/a;b c");
    assert_eq!(sanitize_cwd(&once), once);
}

// --- the other session requests -------------------------------------------

#[test]
fn a_missing_parameter_is_named() {
    let mut out = Outbox::new();
    assert_eq!(
        require_text(&mut out, &Json::Null, &json("{\"k\": \"v\"}"), "k"),
        Some("v".to_string())
    );
    assert_eq!(out.take_lines().len(), 0);
    assert_eq!(require_text(&mut out, &Json::Null, &json("{\"k\": 1}"), "k"), None);
    assert_eq!(told(&only(&mut out)), "Missing required parameter: k");
}

#[test]
fn a_session_ends_once() {
    let (mut bridge, mut out) = bridge_with_session();
    let params = json("{\"sessionId\": \"s1\"}");
    handle_session_end(&mut bridge, &Json::unsigned(2), &params, &mut out);
    assert_eq!(summary(&messages(&mut out)), vec!["2 -> {\"status\":\"ended\"}"]);
    handle_session_end(&mut bridge, &Json::unsigned(3), &params, &mut out);
    let refusal = only(&mut out);
    assert_eq!(code(&refusal), "-32001");
    assert_eq!(told(&refusal), "Unknown session: s1");
}

#[test]
fn the_mode_is_set() {
    let (mut bridge, mut out) = bridge_with_session();
    let id = Json::unsigned(4);
    handle_session_set_mode(
        &mut bridge,
        &id,
        &json("{\"sessionId\": \"s1\", \"modeId\": \"ask\"}"),
        &mut out,
    );
    assert_eq!(summary(&messages(&mut out)), vec!["4 -> {}"]);
    assert_eq!(bridge.sessions.get("s1").unwrap().mode, "ask");
    for (params, expected, message) in [
        ("{}", "-32602", "Missing required parameter: sessionId"),
        ("{\"sessionId\": \"s1\"}", "-32602", "Missing required parameter: modeId"),
        (
            "{\"sessionId\": \"s1\", \"modeId\": \"fly\"}",
            "-32602",
            "Invalid modeId (expected ask, plan, or agent)",
        ),
        (
            "{\"sessionId\": \"s2\", \"modeId\": \"fly\"}",
            "-32602",
            "Invalid modeId (expected ask, plan, or agent)",
        ),
        ("{\"sessionId\": \"s2\", \"modeId\": \"plan\"}", "-32001", "Unknown session: s2"),
    ] {
        handle_session_set_mode(&mut bridge, &id, &json(params), &mut out);
        let refusal = only(&mut out);
        assert_eq!(code(&refusal), expected);
        assert_eq!(told(&refusal), message);
        assert_eq!(bridge.sessions.get("s1").unwrap().mode, "ask");
    }
}

#[test]
fn options_are_set() {
    let (mut bridge, mut out) = bridge_with_session();
    bridge.cached_models_write(vec!["m1".to_string()]);
    bridge.cached_models_write(Vec::new());
    assert_eq!(*bridge.cached_models_read(), vec!["m1".to_string()]);
    let id = Json::unsigned(5);
    for (option, value) in [("mode", "plan"), ("model", "m1"), ("model", "base")] {
        let params = json(&format!(
            "{{\"sessionId\": \"s1\", \"configId\": \"{option}\", \"value\": \"{value}\"}}"
        ));
        handle_session_set_config_option(&mut bridge, &id, &params, &mut out);
        let answer = only(&mut out);
        let options = at(&answer, &["result", "configOptions"]).as_array().unwrap();
        let i = if option == "mode" { 0 } else { 1 };
        assert_eq!(options[i].text_at("currentValue").unwrap(), value);
    }
    let session = bridge.sessions.get("s1").unwrap();
    assert_eq!((session.mode.as_str(), session.model.as_str()), ("plan", "base"));
    for (params, expected, message) in [
        ("{}", "-32602", "Missing required parameter: sessionId"),
        ("{\"sessionId\": \"s1\"}", "-32602", "Missing required parameter: configId"),
        (
            "{\"sessionId\": \"s1\", \"configId\": \"mode\"}",
            "-32602",
            "Missing required parameter: value",
        ),
        (
            "{\"sessionId\": \"s1\", \"configId\": \"mode\", \"value\": \"x\"}",
            "-32602",
            "Invalid mode value (expected ask, plan, or agent)",
        ),
        (
            "{\"sessionId\": \"s1\", \"configId\": \"model\", \"value\": \"x\"}",
            "-32602",
            "Model value is not in the available models list",
        ),
        (
            "{\"sessionId\": \"s1\", \"configId\": \"x\", \"value\": \"y\"}",
            "-32602",
            "Unknown config option: x",
        ),
        (
            "{\"sessionId\": \"s2\", \"configId\": \"mode\", \"value\": \"ask\"}",
            "-32001",
            "Unknown session: s2",
        ),
        (
            "{\"sessionId\": \"s2\", \"configId\": \"model\", \"value\": \"m1\"}",
            "-32001",
            "Unknown session: s2",
        ),
    ] {
        handle_session_set_config_option(&mut bridge, &id, &json(params), &mut out);
        let refusal = only(&mut out);
        assert_eq!(code(&refusal), expected);
        assert_eq!(told(&refusal), message);
    }
    let session = bridge.sessions.get("s1").unwrap();
    assert_eq!((session.mode.as_str(), session.model.as_str()), ("plan", "base"));
}

#[test]
fn cancelling_marks_the_session() {
    let (mut bridge, _) = bridge_with_session();
    assert!(!handle_session_cancel(&mut bridge, &json("{}")));
    assert!(!handle_session_cancel(&mut bridge, &json("{\"sessionId\": \"s2\"}")));
    assert!(!bridge.sessions.get("s1").unwrap().is_cancelled());
    assert!(handle_session_cancel(&mut bridge, &json("{\"sessionId\": \"s1\"}")));
    assert!(bridge.sessions.get("s1").unwrap().is_cancelled());
}

#[test]
fn idle_sessions_are_closed() {
    const SECOND: u128 = 1_000_000_000;
    let (mut bridge, mut out) = bridge_with_session();
    open(&mut bridge, "s2", &mut out);
    bridge.sessions.get_mut("s1").unwrap().touch(SECOND);
    bridge.sessions.get_mut("s2").unwrap().touch(SECOND + 1);
    assert_eq!(evict_idle_sessions(&mut bridge, 0, u128::MAX), 0);
    assert_eq!(evict_idle_sessions(&mut bridge, 10, 11 * SECOND - 1), 0);
    assert_eq!(evict_idle_sessions(&mut bridge, 10, 11 * SECOND), 1);
    assert!(bridge.sessions.get("s1").is_none());
    assert!(bridge.sessions.get("s2").is_some());
    assert_eq!(evict_idle_sessions(&mut bridge, u64::MAX, 12 * SECOND), 0);
    assert_eq!(eviction_interval_secs(5), 5);
    assert_eq!(eviction_interval_secs(60), 60);
    assert_eq!(eviction_interval_secs(3600), 60);
}

// --- reading what the model says ------------------------------------------

#[test]
fn tool_calls_are_found_in_both_formats() {
    let ollama = json("{\"message\": {\"tool_calls\": [1, 2]}, \"choices\": [{\"message\": {\"tool_calls\": [3]}}]}");
    assert_eq!(extract_tool_calls(&ollama).len(), 2);
    let openai = json("{\"choices\": [{\"message\": {\"tool_calls\": [3]}}]}");
    assert_eq!(extract_tool_calls(&openai).len(), 1);
    let empty = json("{\"message\": {\"tool_calls\": []}, \"choices\": [{\"message\": {\"tool_calls\": [3]}}]}");
    assert_eq!(extract_tool_calls(&empty).len(), 0);
    assert_eq!(extract_tool_calls(&json("{\"message\": {}}")).len(), 0);
    assert_eq!(extract_tool_calls(&json("[]")).len(), 0);
}

#[test]
fn text_is_found_in_both_formats() {
    let both = json("{\"message\": {\"content\": \"a\"}, \"choices\": [{\"message\": {\"content\": \"b\"}}]}");
    assert_eq!(extract_response_text(&both), "a");
    let blank = json("{\"message\": {\"content\": \"\"}, \"choices\": [{\"message\": {\"content\": \"b\"}}]}");
    assert_eq!(extract_response_text(&blank), "b");
    assert_eq!(extract_response_text(&json("{\"choices\": []}")), "");
    assert_eq!(extract_response_text(&json("{\"message\": {\"content\": null}}")), "");
}

#[test]
fn arguments_are_read() {
    let call = json("{\"function\": {\"name\": \"read_file\", \"arguments\": \"{\\\"path\\\": \\\"x\\\"}\"}}");
    assert_eq!(tool_name(&call), "read_file");
    assert_eq!(arguments_text(&call), "{\"path\": \"x\"}");
    assert_eq!(tool_arguments(&call).render(), "{\"path\":\"x\"}");
    let broken = json("{\"function\": {\"arguments\": \"{\"}}");
    assert_eq!(tool_name(&broken), "unknown");
    assert_eq!(tool_arguments(&broken).render(), "\"{\"");
    let object = json("{\"function\": {\"arguments\": {\"path\": \"x\"}}}");
    assert_eq!(tool_arguments(&object).render(), "{}");
    assert_eq!(arguments_or_raw(&object, None).render(), "{\"path\":\"x\"}");
    assert_eq!(arguments_or_raw(&json("{}"), None).render(), "null");
    assert_eq!(arguments_or_raw(&object, Some(Json::Bool(true))).render(), "true");
}

#[test]
fn the_text_blocks_are_what_the_user_said() {
    let params = json("{\"prompt\": [{\"type\": \"text\", \"text\": \"a\"}, {\"type\": \"image\", \"text\": \"no\"}, {\"type\": \"text\"}, {\"text\": \"no\"}, {\"type\": \"text\", \"text\": \"b\"}]}");
    assert_eq!(user_text(&params), "a\nb");
    assert_eq!(user_text(&json("{\"prompt\": \"a\"}")), "");
    assert_eq!(user_text(&json("{}")), "");
}

// --- turns ----------------------------------------------------------------

fn begin(bridge: &mut Bridge, text: &str, out: &mut Outbox) -> PromptTurn {
    begin_turn(
        bridge,
        &Json::unsigned(9),
        &json(&format!(
            "{{\"sessionId\": \"s1\", \"prompt\": [{{\"type\": \"text\", \"text\": \"{text}\"}}]}}"
        )),
        "llm-1".to_string(),
        200,
        out,
    )
    .unwrap()
}

fn step(
    bridge: &mut Bridge,
    turn: PromptTurn,
    event: TurnEvent,
    id: &str,
    out: &mut Outbox,
) -> TurnStep {
    advance_with_id(bridge, turn, event, id.to_string(), out)
}

fn asked(step: TurnStep) -> (PromptTurn, Vec<String>) {
    match step {
        TurnStep::AskModel { turn, messages } => {
            (turn, messages.iter().map(|m| m.render()).collect())
        }
        other => panic!("{:?}", other),
    }
}

fn to_run(step: TurnStep) -> (PromptTurn, String, String) {
    match step {
        TurnStep::RunTool { turn, name, args } => (turn, name, args.render()),
        other => panic!("{:?}", other),
    }
}

fn responded(text: &str) -> TurnEvent {
    TurnEvent::Responded { response: json(text) }
}

const TWO_CALLS: &str = "{\"choices\": [{\"message\": {\"role\": \"assistant\", \"tool_calls\": [{\"function\": {\"name\": \"read_file\", \"arguments\": \"{}\"}}, {\"function\": {\"name\": \"make\", \"arguments\": \"x\"}}]}}]}";

#[test]
fn a_prompt_begins_a_turn() {
    let (mut bridge, mut out) = bridge_with_session();
    bridge.sessions.get_mut("s1").unwrap().request_cancel();
    let turn = begin(&mut bridge, "hi", &mut out);
    assert_eq!(turn.session_id, "s1");
    assert_eq!((turn.mode.as_str(), turn.model.as_str()), ("agent", "base"));
    assert_eq!(
        summary(&messages(&mut out)),
        vec!["agent_thought_chunk: ", "tool_call: llm-1 LLM chat think"]
    );
    let session = bridge.sessions.get("s1").unwrap();
    assert!(!session.is_cancelled());
    assert_eq!(session.last_active, 200);
    assert_eq!(history(&bridge, "s1")[1], "{\"content\":\"hi\",\"role\":\"user\"}");
    let (turn, sent) = asked(step(&mut bridge, turn, TurnEvent::Begun, "", &mut out));
    assert_eq!(turn.working_dir, "/w");
    assert_eq!(sent.len(), 2);
    assert!(sent[0].contains("be kind\\n\\nYou are in Agent mode."));
    assert_eq!(sent[1], "{\"content\":\"hi\",\"role\":\"user\"}");
    assert_eq!(out.take_lines().len(), 0);
}

#[test]
fn text_ends_a_turn() {
    let (mut bridge, mut out) = bridge_with_session();
    let turn = begin(&mut bridge, "hi", &mut out);
    out.take_lines();
    let (turn, _) = asked(step(&mut bridge, turn, TurnEvent::Begun, "", &mut out));
    let end = step(&mut bridge, turn, responded("{\"message\": {\"content\": \"yo\"}}"), "", &mut out);
    assert!(matches!(end, TurnStep::Finished));
    assert_eq!(
        summary(&messages(&mut out)),
        vec![
            "agent_message_chunk: yo",
            "tool_call_update: llm-1 completed",
            "9 -> {\"status\":\"completed\",\"stopReason\":\"end_turn\"}",
        ]
    );
    assert_eq!(history(&bridge, "s1")[2], "{\"content\":\"yo\",\"role\":\"assistant\"}");
}

#[test]
fn silence_ends_a_turn() {
    let (mut bridge, mut out) = bridge_with_session();
    let turn = begin(&mut bridge, "hi", &mut out);
    out.take_lines();
    let end = step(&mut bridge, turn, responded("{}"), "", &mut out);
    assert!(matches!(end, TurnStep::Finished));
    assert_eq!(
        summary(&messages(&mut out)),
        vec![
            "tool_call_update: llm-1 completed",
            "9 -> {\"status\":\"completed\",\"stopReason\":\"end_turn\"}",
        ]
    );
    assert_eq!(history(&bridge, "s1").len(), 2);
}

#[test]
fn tools_are_run_one_after_the_other() {
    let (mut bridge, mut out) = bridge_with_session();
    let turn = begin(&mut bridge, "hi", &mut out);
    let (turn, _) = asked(step(&mut bridge, turn, TurnEvent::Begun, "", &mut out));
    out.take_lines();
    let (turn, name, args) = to_run(step(&mut bridge, turn, responded(TWO_CALLS), "t1", &mut out));
    assert_eq!((name.as_str(), args.as_str()), ("read_file", "{}"));
    let done = TurnEvent::ToolDone { result: "r1".to_string() };
    let (turn, name, args) = to_run(step(&mut bridge, turn, done, "t2", &mut out));
    assert_eq!((name.as_str(), args.as_str()), ("make", "\"x\""));
    let done = TurnEvent::ToolDone { result: "r2".to_string() };
    let (turn, sent) = asked(step(&mut bridge, turn, done, "t3", &mut out));
    assert_eq!(turn.round, 1);
    assert_eq!(
        summary(&messages(&mut out)),
        vec![
            "tool_call: t1 read_file read",
            "tool_call_update: t1 completed",
            "tool_call: t2 make other",
            "tool_call_update: t2 completed",
        ]
    );
    assert_eq!(sent.len(), 5);
    assert!(sent[2].starts_with("{\"role\":\"assistant\",\"tool_calls\":[{\"function\""));
    assert_eq!(sent[3], "{\"content\":\"r1\",\"role\":\"tool\"}");
    assert_eq!(sent[4], "{\"content\":\"r2\",\"role\":\"tool\"}");
}

#[test]
fn tool_calls_are_kept_in_either_format() {
    let native = "{\"message\": {\"role\": \"assistant\", \"content\": \"x\", \"tool_calls\": [{\"function\": {\"name\": \"f\"}}]}}";
    for (ollama_native, kept) in [
        (true, "{\"content\":\"\",\"role\":\"assistant\",\"tool_calls\":[{\"function\":{\"name\":\"f\"}}]}"),
        (false, "null"),
    ] {
        let (mut bridge, mut out) = bridge_with_session();
        bridge.config.ollama_native = ollama_native;
        let turn = begin(&mut bridge, "hi", &mut out);
        to_run(step(&mut bridge, turn, responded(native), "t", &mut out));
        assert_eq!(history(&bridge, "s1")[2], kept);
    }
}

#[test]
fn the_rounds_are_counted() {
    let (mut bridge, mut out) = bridge_with_session();
    let turn = begin(&mut bridge, "hi", &mut out);
    let mut now = step(&mut bridge, turn, TurnEvent::Begun, "", &mut out);
    let mut questions = 0;
    loop {
        now = match now {
            TurnStep::AskModel { turn, .. } => {
                questions += 1;
                step(&mut bridge, turn, responded(TWO_CALLS), "t", &mut out)
            }
            TurnStep::RunTool { turn, .. } => {
                let done = TurnEvent::ToolDone { result: "r".to_string() };
                step(&mut bridge, turn, done, "t", &mut out)
            }
            TurnStep::Finished => break,
        };
    }
    assert_eq!(questions, MAX_TOOL_ROUNDS);
    assert_eq!(MAX_TOOL_ROUNDS, 5);
    let all = messages(&mut out);
    for update in &all[..all.len() - 1] {
        assert_eq!(update.text_at("method").unwrap(), "session/update");
        assert_eq!(at(update, &["params", "sessionId"]).as_str(), Some("s1"));
    }
    let answers = all.iter().filter(|m| m.get("id").is_some()).count();
    assert_eq!(answers, 1);
    assert_eq!(
        summary(&all[all.len() - 1..]),
        vec!["9 -> {\"status\":\"completed\",\"stopReason\":\"end_turn\"}"]
    );
    assert_eq!(history(&bridge, "s1").len(), 2 + 5 * 3);
}

#[test]
fn a_cancelled_turn_stops_before_the_next_question() {
    let (mut bridge, mut out) = bridge_with_session();
    let turn = begin(&mut bridge, "hi", &mut out);
    let (turn, _) = asked(step(&mut bridge, turn, TurnEvent::Begun, "", &mut out));
    handle_session_cancel(&mut bridge, &json("{\"sessionId\": \"s1\"}"));
    let call = "{\"message\": {\"tool_calls\": [{\"function\": {\"name\": \"f\"}}]}}";
    let (turn, _, _) = to_run(step(&mut bridge, turn, responded(call), "t", &mut out));
    out.take_lines();
    let done = TurnEvent::ToolDone { result: "r".to_string() };
    let end = step(&mut bridge, turn, done, "", &mut out);
    assert!(matches!(end, TurnStep::Finished));
    assert_eq!(
        summary(&messages(&mut out)),
        vec![
            "tool_call_update: t completed",
            "tool_call_update: llm-1 failed",
            "9 -> {\"stopReason\":\"cancelled\"}",
        ]
    );
    let turn = begin(&mut bridge, "again", &mut out);
    asked(step(&mut bridge, turn, TurnEvent::Begun, "", &mut out));
}

#[test]
fn a_failure_ends_a_turn() {
    let (mut bridge, mut out) = bridge_with_session();
    let turn = begin(&mut bridge, "hi", &mut out);
    out.take_lines();
    let lost = TurnEvent::Unreachable { reason: "down".to_string() };
    let end = step(&mut bridge, turn, lost, "", &mut out);
    assert!(matches!(end, TurnStep::Finished));
    assert_eq!(
        summary(&messages(&mut out)),
        vec![
            "agent_message_chunk: \n\n**Error:** LLM communication error: down\n",
            "tool_call_update: llm-1 failed",
            "9 -> {\"status\":\"failed\",\"stopReason\":\"refusal\"}",
        ]
    );
}

#[test]
fn a_turn_outlives_its_session() {
    let (mut bridge, mut out) = bridge_with_session();
    let turn = begin(&mut bridge, "hi", &mut out);
    bridge.sessions.remove("s1");
    let (turn, sent) = asked(step(&mut bridge, turn, TurnEvent::Begun, "", &mut out));
    assert_eq!(sent.len(), 0);
    assert_eq!(turn.working_dir, "");
    let end = step(&mut bridge, turn, responded("{\"message\": {\"content\": \"yo\"}}"), "", &mut out);
    assert!(matches!(end, TurnStep::Finished));
    assert_eq!(bridge.sessions.len(), 0);
}

#[test]
fn a_long_history_is_cut_when_a_prompt_begins() {
    let (mut bridge, mut out) = bridge_with_session();
    bridge.config.max_history_turns = 1;
    for text in ["a", "b", "c"] {
        begin(&mut bridge, text, &mut out);
    }
    assert_eq!(
        history(&bridge, "s1"),
        vec![
            "{\"content\":\"be kind\",\"role\":\"system\"}",
            "{\"content\":\"b\",\"role\":\"user\"}",
            "{\"content\":\"c\",\"role\":\"user\"}",
        ]
    );
    bridge.config.max_history_turns = 0;
    begin(&mut bridge, "d", &mut out);
    assert_eq!(history(&bridge, "s1").len(), 4);
}

#[test]
fn prompts_to_no_session_are_refused() {
    let (mut bridge, mut out) = bridge_with_session();
    let id = Json::unsigned(7);
    assert!(handle_session_prompt(&mut bridge, &id, &json("{}"), 0, &mut out).is_none());
    assert_eq!(code(&only(&mut out)), "-32602");
    let params = json("{\"sessionId\": \"s2\"}");
    assert!(handle_session_prompt(&mut bridge, &id, &params, 0, &mut out).is_none());
    assert_eq!(told(&only(&mut out)), "Unknown session: s2");
    assert_eq!(history(&bridge, "s1").len(), 1);
}

#[test]
fn the_model_is_asked_with_the_session_choices() {
    let (mut bridge, mut out) = bridge_with_session();
    bridge.sessions.get_mut("s1").unwrap().model = "mine".to_string();
    let turn = begin(&mut bridge, "hi", &mut out);
    let bare = model_request(&bridge.config, &turn, &Vec::new(), &Vec::new());
    assert_eq!(
        bare.body.render(),
        "{\"messages\":[],\"model\":\"mine\",\"stream\":false}"
    );
    let tools = vec![json("{\"type\": \"function\"}")];
    let with_tools = model_request(&bridge.config, &turn, &Vec::new(), &tools);
    assert_eq!(
        with_tools.body.render(),
        "{\"messages\":[],\"model\":\"mine\",\"stream\":false,\"tools\":[{\"type\":\"function\"}]}"
    );
}

// --- dispatch -------------------------------------------------------------

fn request(id: Option<Json>, method: &str, params: Option<&str>) -> JsonRpcRequest {
    JsonRpcRequest { id, method: method.to_string(), params: params.map(json) }
}

#[test]
fn notifications_are_never_answered() {
    let (mut bridge, mut out) = bridge_with_session();
    for method in ["initialize", "session/new", "session/end", "session/prompt", "nonsense"] {
        let turn = handle_request(&mut bridge, request(None, method, None), None, 0, &mut out);
        assert!(turn.is_none());
        assert_eq!(out.take_lines().len(), 0);
    }
    assert_eq!(bridge.sessions.len(), 1);
    let cancel = Some("{\"sessionId\": \"s1\"}");
    handle_request(&mut bridge, request(None, "session/cancel", cancel), None, 0, &mut out);
    assert!(bridge.sessions.get("s1").unwrap().is_cancelled());
    let id = Some(Json::unsigned(1));
    handle_request(&mut bridge, request(id, "session/cancel", None), None, 0, &mut out);
    assert_eq!(out.take_lines().len(), 0);
}

#[test]
fn requests_reach_their_handlers() {
    let (mut bridge, mut out) = bridge_with_session();
    let s1 = "{\"sessionId\": \"s1\"}";
    for (method, params, expected) in [
        ("initialize", None, "result"),
        ("session/new", None, "result"),
        ("session/set_config_option", Some(s1), "error"),
        ("session/set_mode", Some(s1), "error"),
        ("session/prompt", None, "error"),
        ("session/end", None, "error"),
        ("session/close", Some(s1), "result"),
        ("session/end", Some(s1), "error"),
        ("session/End", Some(s1), "error"),
        ("", None, "error"),
    ] {
        let id = Some(json("[1]"));
        let turn = handle_request(&mut bridge, request(id, method, params), None, 0, &mut out);
        assert!(turn.is_none());
        let answer = only(&mut out);
        assert_eq!(at(&answer, &["id"]).render(), "[1]");
        assert!(answer.get(expected).is_some(), "{method}");
    }
}

#[test]
fn the_system_prompt_can_be_set() {
    let mut bridge = Bridge::new(config(50, 0));
    let mut out = Outbox::new();
    let new = request(Some(Json::Null), "session/new", None);
    handle_request(&mut bridge, new, Some("mind your step".to_string()), 0, &mut out);
    let id = at(&only(&mut out), &["result", "sessionId"]).as_str().unwrap().to_string();
    assert_eq!(
        history(&bridge, &id),
        vec!["{\"content\":\"mind your step\",\"role\":\"system\"}"]
    );
}

#[test]
fn a_prompt_is_answered_by_its_turn() {
    let (mut bridge, mut out) = bridge_with_session();
    let prompt = request(Some(json("\"p\"")), "session/prompt", Some("{\"sessionId\": \"s1\"}"));
    let turn = handle_request(&mut bridge, prompt, None, 3, &mut out).unwrap();
    assert_eq!(turn.id.render(), "\"p\"");
    assert_eq!(turn.llm_tool_id.len(), 36);
    let begun = messages(&mut out);
    assert_eq!(begun.len(), 2);
    assert!(begun.iter().all(|m| m.get("id").is_none()));
    let lost = TurnEvent::Unreachable { reason: "x".to_string() };
    step(&mut bridge, turn, lost, "", &mut out);
    let rest = messages(&mut out);
    assert_eq!(at(rest.last().unwrap(), &["id"]).render(), "\"p\"");
}

#[test]
fn other_sessions_are_not_touched() {
    let (mut bridge, mut out) = bridge_with_session();
    open(&mut bridge, "s2", &mut out);
    let turn = begin(&mut bridge, "hi", &mut out);
    step(&mut bridge, turn, responded("{\"message\": {\"content\": \"yo\"}}"), "", &mut out);
    let mode = "{\"sessionId\": \"s1\", \"modeId\": \"ask\"}";
    let id = Some(Json::Null);
    handle_request(&mut bridge, request(id, "session/set_mode", Some(mode)), None, 0, &mut out);
    let s2 = bridge.sessions.get("s2").unwrap();
    assert_eq!(s2.mode, "agent");
    assert_eq!(s2.last_active, 100);
    assert_eq!(history(&bridge, "s2").len(), 1);
    assert_eq!(history(&bridge, "s1").len(), 3);
}
