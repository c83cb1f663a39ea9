//! Text, JSON, the protocol's data, settings and choices.

use acp_bridge::config::{ConfigFile, Environment};
use acp_bridge::json::{copy_list, from_value, parse, to_value, Fields, Json};
use acp_bridge::llm::LlmConfig;
use acp_bridge::options::{
    augment_messages_for_llm, build_config_options, list_contains, make_message,
    merge_models_with_default, mode_instructions, model_list_for_config_options, modes_state_json,
};
use acp_bridge::protocol::{AcpError, Session};
use acp_bridge::sessions::SessionStore;
use acp_bridge::text::{
    before, characters, contains, decimal_text, is_white_space, join, join_three, join_two,
    parse_unsigned, same, slice_text, starts_with, trim_end_matches, trim_slice,
};

fn json(text: &str) -> Json {
    parse(text).unwrap()
}

fn strings(list: &[&str]) -> Vec<String> {
    list.iter().map(|s| s.to_string()).collect()
}

fn silent() -> Environment {
    Environment {
        llm_base_url: None,
        ollama_base_url: None,
        llm_model: None,
        ollama_model: None,
        llm_api_key: None,
        ollama_api_key: None,
        llm_temperature: None,
        llm_max_tokens: None,
        llm_timeout: None,
        llm_max_history_turns: None,
        llm_max_sessions: None,
        llm_session_idle_timeout: None,
    }
}

fn config_with_model(model: &str) -> LlmConfig {
    let mut env = silent();
    env.llm_model = Some(model.to_string());
    LlmConfig::from_env(env)
}

fn session() -> Session {
    Session::new(
        make_message("system", "be kind"),
        "/work".to_string(),
        "m1".to_string(),
        5,
    )
}

// --- text -----------------------------------------------------------------

#[test]
fn text_is_compared_and_searched() {
    assert!(same("héllo", "héllo"));
    assert!(!same("a", "A"));
    assert!(contains("abcabd", "abd"));
    assert!(contains("abc", ""));
    assert!(contains("", ""));
    assert!(!contains("ab", "abc"));
    assert!(!contains("abab", "ba b"));
    assert!(starts_with("data: x", "data: "));
    assert!(starts_with("x", ""));
    assert!(!starts_with("dat", "data"));
    assert!(!starts_with("xdata", "data"));
}

#[test]
fn text_is_joined_and_cut() {
    assert_eq!(join_two("a", "b"), "ab");
    assert_eq!(join_three("a", "-", "b"), "a-b");
    assert_eq!(join(&strings(&[]), ", "), "");
    assert_eq!(join(&strings(&["x"]), ", "), "x");
    assert_eq!(join(&strings(&["x", "", "z"]), ", "), "x, , z");
    assert_eq!(characters("aé"), vec!['a', 'é']);
    assert_eq!(slice_text(&characters("añb"), 1, 2), "ñ");
    assert_eq!(trim_slice(&characters("  a b\t\r"), 0, 7), "a b");
    assert_eq!(trim_slice(&characters("\u{3000}x\u{a0}"), 0, 3), "x");
    assert_eq!(trim_slice(&characters(" \u{85}\n"), 0, 3), "");
    assert_eq!(before("gemma4:26b", ':'), "gemma4");
    assert_eq!(before("gemma4", ':'), "gemma4");
    assert_eq!(before(":x", ':'), "");
}

#[test]
fn suffixes_are_removed_as_often_as_they_occur() {
    for (s, suffix) in [
        ("http://h/v1", "/v1"),
        ("http://h/v1/v1", "/v1"),
        ("http://h/v1/", "/v1"),
        ("http://h//", "/"),
        ("/v1/v1", "/v1"),
        ("v1", "/v1"),
        ("", "/"),
        ("aaa", "aa"),
    ] {
        assert_eq!(trim_end_matches(s, suffix), s.trim_end_matches(suffix));
    }
}

#[test]
fn white_space_is_what_unicode_says() {
    for code in 0..0x11_0000u32 {
        if let Some(c) = char::from_u32(code) {
            assert_eq!(is_white_space(c), c.is_whitespace(), "{:x}", code);
        }
    }
}

#[test]
fn numbers_are_written_and_read() {
    for n in [0, 7, 10, 42, 909, 18446744073709551615] {
        assert_eq!(decimal_text(n), n.to_string());
    }
    for s in [
        "0", "300", "+5", "007", "18446744073709551615", "18446744073709551616", "", "+", "-1",
        " 1", "1 ", "1.0", "1e3", "٣", "++1",
    ] {
        assert_eq!(parse_unsigned(s, u64::MAX), s.parse::<u64>().ok(), "{s}");
    }
    assert_eq!(parse_unsigned("100", 100), Some(100));
    assert_eq!(parse_unsigned("101", 100), None);
}

// --- JSON -----------------------------------------------------------------

#[test]
fn json_is_read() {
    let value = json(r#" {"a": [1, -2, 2.5, null, true, "x\n"], "b": {"c": "d"}} "#);
    let items = value.get("a").unwrap().as_array().unwrap();
    assert_eq!(items.len(), 6);
    assert_eq!(items[0].as_u64(), Some(1));
    assert_eq!(items[1].as_u64(), None);
    assert_eq!(items[2].as_u64(), None);
    assert_eq!(items[5].as_str(), Some("x\n"));
    assert_eq!(value.get("b").unwrap().text_at("c"), Some("d".to_string()));
    assert!(value.get("z").is_none());
    assert!(value.get("a").unwrap().get("c").is_none());
    assert!(value.item(0).is_none());
    assert!(value.get("a").unwrap().item(6).is_none());
    assert!(value.as_str().is_none());
    assert!(value.text_at("a").is_none());
    assert!(parse("{").is_none());
    assert!(parse("").is_none());
    assert!(parse("{} x").is_none());
}

#[test]
fn json_is_written_compactly_and_in_order() {
    assert_eq!(
        json("{ \"b\" : [ 1 , 2.50 ] , \"a\" : null }").render(),
        "{\"a\":null,\"b\":[1,2.5]}"
    );
    assert_eq!(Json::signed(-32601).render(), "-32601");
    assert_eq!(Json::unsigned(u64::MAX).render(), "18446744073709551615");
    assert_eq!(Json::Bool(false).render(), "false");
    assert_eq!(Json::text("q\"").render(), "\"q\\\"\"");
}

#[test]
fn the_later_of_two_fields_counts() {
    let fields = Fields::new()
        .with("k", Json::unsigned(1))
        .with("l", Json::Null)
        .with("k", Json::unsigned(2));
    assert_eq!(fields.get("k").unwrap().as_u64(), Some(2));
    assert!(fields.get("m").is_none());
    assert_eq!(Json::Object(fields).render(), "{\"k\":2,\"l\":null}");
    assert_eq!(json("{\"k\": 1, \"k\": 2}").render(), "{\"k\":2}");
}

#[test]
fn values_keep_what_they_hold() {
    let text = "{\"a\":[true,{\"b\":[]},-1,1.25e300],\"z\":\"\"}";
    let value = json(text);
    assert_eq!(value.clone().render(), value.render());
    assert_eq!(from_value(to_value(&value)).render(), value.render());
    assert_eq!(to_value(&value), serde_json::from_str::<serde_json::Value>(text).unwrap());
    let list = vec![Json::Null, json(text)];
    let copy = copy_list(&list);
    assert_eq!(copy.len(), 2);
    assert_eq!(copy[1].render(), list[1].render());
}

// --- sessions and errors --------------------------------------------------

#[test]
fn a_session_begins_with_its_system_prompt() {
    let s = session();
    assert_eq!(s.messages.len(), 1);
    assert_eq!(s.messages[0].render(), "{\"content\":\"be kind\",\"role\":\"system\"}");
    assert_eq!(s.mode, "agent");
    assert_eq!(s.model, "m1");
    assert_eq!(s.working_dir, "/work");
    assert_eq!(s.last_active, 5);
    assert!(!s.is_cancelled());
}

#[test]
fn a_session_is_cancelled_until_the_next_prompt() {
    let mut s = session();
    s.request_cancel();
    assert!(s.is_cancelled());
    s.clear_cancel();
    assert!(!s.is_cancelled());
    s.touch(77);
    assert_eq!(s.last_active, 77);
}

#[test]
fn modes() {
    for mode in ["ask", "plan", "agent"] {
        assert!(Session::is_valid_mode(mode));
        assert!(!mode_instructions(mode).is_empty());
    }
    for mode in ["", "Ask", "agent "] {
        assert!(!Session::is_valid_mode(mode));
        assert_eq!(mode_instructions(mode), "");
    }
}

fn contents(s: &Session) -> Vec<String> {
    s.messages.iter().map(|m| m.text_at("content").unwrap()).collect()
}

#[test]
fn history_is_trimmed_to_the_latest_turns() {
    let mut s = session();
    for n in 0..6 {
        s.push(make_message("user", &format!("u{n}")));
    }
    s.trim_history(3);
    assert_eq!(s.messages.len(), 7);
    s.trim_history(usize::MAX);
    assert_eq!(s.messages.len(), 7);
    s.trim_history(1);
    assert_eq!(contents(&s), vec!["be kind", "u4", "u5"]);
    s.trim_history(1);
    assert_eq!(contents(&s), vec!["be kind", "u4", "u5"]);
    s.trim_history(0);
    assert_eq!(contents(&s), vec!["be kind"]);
}

#[test]
fn errors_have_codes_and_messages() {
    let all = vec![
        (
            AcpError::MissingParam { field: "sessionId".to_string() },
            -32602,
            "Missing required parameter: sessionId",
        ),
        (
            AcpError::UnknownSession { session_id: "x".to_string() },
            -32001,
            "Unknown session: x",
        ),
        (
            AcpError::MethodNotFound { method: "foo".to_string() },
            -32601,
            "Method not found: foo",
        ),
        (
            AcpError::LlmError { reason: "down".to_string() },
            -32003,
            "LLM communication error: down",
        ),
        (
            AcpError::SessionLimitReached { max: 10 },
            -32004,
            "Session limit reached (max: 10)",
        ),
    ];
    for (error, code, message) in &all {
        assert_eq!(error.code(), *code);
        assert_eq!(error.to_string(), *message);
    }
    for i in 0..all.len() {
        for j in 0..i {
            assert_ne!(all[i].1, all[j].1);
        }
    }
}

#[test]
fn the_store_keeps_one_session_per_id() {
    let mut store = SessionStore::new();
    assert_eq!(store.len(), 0);
    store.insert("a".to_string(), session());
    store.insert("b".to_string(), session());
    assert_eq!(store.len(), 2);
    let mut other = session();
    other.model = "m2".to_string();
    store.insert("a".to_string(), other);
    assert_eq!(store.len(), 2);
    assert_eq!(store.get("a").unwrap().model, "m2");
    store.get_mut("b").unwrap().mode = "ask".to_string();
    assert_eq!(store.get("b").unwrap().mode, "ask");
    assert_eq!(store.get("a").unwrap().mode, "agent");
    assert!(store.get("c").is_none());
    assert!(store.get_mut("c").is_none());
    assert!(store.remove("a"));
    assert!(!store.remove("a"));
    assert_eq!(store.len(), 1);
    store.clear();
    assert_eq!(store.len(), 0);
}

#[test]
fn the_store_drops_what_is_idle() {
    let mut store = SessionStore::new();
    for (id, last) in [("old", 10), ("edge", 20), ("new", 21), ("ahead", 500)] {
        let mut s = session();
        s.touch(last);
        store.insert(id.to_string(), s);
    }
    store.retain_fresh(120, 100);
    assert!(store.get("old").is_none());
    assert!(store.get("edge").is_none());
    assert!(store.get("new").is_some());
    assert!(store.get("ahead").is_some());
}

// --- settings -------------------------------------------------------------

#[test]
fn defaults() {
    let c = LlmConfig::from_env(silent());
    assert_eq!(c.base_url, "http://localhost:11434/v1");
    assert_eq!(c.model, "gemma4:26b");
    assert_eq!(c.api_key, "local-ai");
    assert!(c.temperature.is_none());
    assert_eq!(c.max_tokens, None);
    assert_eq!(c.timeout_secs, 300);
    assert_eq!(c.max_history_turns, 50);
    assert_eq!(c.max_sessions, 0);
    assert_eq!(c.session_idle_timeout_secs, 0);
    assert!(!c.is_ollama_native());
}

fn loud() -> Environment {
    Environment {
        llm_base_url: Some("http://e/v1".to_string()),
        ollama_base_url: Some("http://o/v1".to_string()),
        llm_model: Some("em".to_string()),
        ollama_model: Some("om".to_string()),
        llm_api_key: Some("ek".to_string()),
        ollama_api_key: Some("ok".to_string()),
        llm_temperature: serde_json::Number::from_f64(0.5),
        llm_max_tokens: Some("11".to_string()),
        llm_timeout: Some("12".to_string()),
        llm_max_history_turns: Some("13".to_string()),
        llm_max_sessions: Some("14".to_string()),
        llm_session_idle_timeout: Some("15".to_string()),
    }
}

fn file() -> ConfigFile {
    ConfigFile {
        base_url: Some("http://f/v1".to_string()),
        model: Some("fm".to_string()),
        api_key: Some("fk".to_string()),
        temperature: serde_json::Number::from_f64(1.5),
        max_tokens: Some(21),
        timeout_secs: Some(22),
        max_history_turns: Some(23),
        max_sessions: Some(24),
        session_idle_timeout_secs: Some(25),
    }
}

#[test]
fn the_environment_goes_before_the_file() {
    let c = file().into_llm_config(loud());
    assert_eq!(c.base_url, "http://e/v1");
    assert_eq!(c.model, "em");
    assert_eq!(c.api_key, "ek");
    assert_eq!(c.temperature.unwrap().to_string(), "0.5");
    assert_eq!(c.max_tokens, Some(11));
    assert_eq!(c.timeout_secs, 12);
    assert_eq!(c.max_history_turns, 13);
    assert_eq!(c.max_sessions, 14);
    assert_eq!(c.session_idle_timeout_secs, 15);
}

#[test]
fn the_file_goes_before_the_defaults() {
    let c = file().into_llm_config(silent());
    assert_eq!(c.base_url, "http://f/v1");
    assert_eq!(c.model, "fm");
    assert_eq!(c.api_key, "fk");
    assert_eq!(c.temperature.unwrap().to_string(), "1.5");
    assert_eq!(c.max_tokens, Some(21));
    assert_eq!(c.timeout_secs, 22);
    assert_eq!(c.max_history_turns, 23);
    assert_eq!(c.max_sessions, 24);
    assert_eq!(c.session_idle_timeout_secs, 25);
    let empty = ConfigFile::empty().into_llm_config(silent());
    assert_eq!(empty.timeout_secs, 300);
}

#[test]
fn older_names_are_understood_and_nonsense_is_not() {
    let mut env = loud();
    env.llm_base_url = None;
    env.llm_model = None;
    env.llm_api_key = None;
    env.llm_timeout = Some("soon".to_string());
    env.llm_max_tokens = Some("-1".to_string());
    env.llm_max_history_turns = Some("".to_string());
    let c = LlmConfig::from_env(env);
    assert_eq!(c.base_url, "http://o/v1");
    assert_eq!(c.model, "om");
    assert_eq!(c.api_key, "ok");
    assert_eq!(c.timeout_secs, 300);
    assert_eq!(c.max_tokens, None);
    assert_eq!(c.max_history_turns, 50);
}

// --- choices --------------------------------------------------------------

#[test]
fn the_configured_model_is_on_the_list() {
    let config = config_with_model("mine");
    assert_eq!(
        merge_models_with_default(&config, strings(&["a", "b"])),
        strings(&["mine", "a", "b"])
    );
    assert_eq!(
        merge_models_with_default(&config, strings(&["a", "mine"])),
        strings(&["a", "mine"])
    );
    assert_eq!(
        model_list_for_config_options(&config, &strings(&[])),
        strings(&["mine"])
    );
    assert_eq!(
        model_list_for_config_options(&config, &strings(&["x"])),
        strings(&["mine", "x"])
    );
    assert!(list_contains(&strings(&["a", "b"]), "b"));
    assert!(!list_contains(&strings(&["a", "b"]), "c"));
}

#[test]
fn the_mode_is_told_behind_the_system_prompt() {
    let messages = vec![make_message("system", "be kind"), make_message("user", "hi")];
    let told = augment_messages_for_llm(&messages, "ask");
    assert_eq!(told.len(), 2);
    assert_eq!(
        told[0].text_at("content").unwrap(),
        "be kind\n\nYou are in Ask mode. Answer conversationally without using workspace tools; if you need file contents, ask the user to paste them."
    );
    assert_eq!(told[0].text_at("role").unwrap(), "system");
    assert_eq!(told[1].render(), messages[1].render());
    let plain = augment_messages_for_llm(&messages, "other");
    assert_eq!(plain[0].render(), messages[0].render());
    let no_system = vec![make_message("user", "hi")];
    assert_eq!(
        augment_messages_for_llm(&no_system, "ask")[0].render(),
        no_system[0].render()
    );
    assert_eq!(augment_messages_for_llm(&Vec::new(), "ask").len(), 0);
    let odd = vec![json("{\"role\": \"system\", \"content\": 1, \"extra\": 2}")];
    assert_eq!(
        augment_messages_for_llm(&odd, "x")[0].render(),
        "{\"content\":\"\",\"role\":\"system\"}"
    );
}

#[test]
fn options_in_full() {
    let mut s = session();
    s.mode = "plan".to_string();
    let options = build_config_options(&s, &strings(&["m1", "m2"]));
    assert_eq!(options.len(), 2);
    assert_eq!(
        options[0].render(),
        "{\"category\":\"mode\",\"currentValue\":\"plan\",\"description\":\"Ask: chat only. Plan: structured planning with read-only exploration. Agent: full tool use.\",\"id\":\"mode\",\"name\":\"Session mode\",\"options\":[{\"description\":\"Answer without running workspace tools.\",\"name\":\"Ask\",\"value\":\"ask\"},{\"description\":\"Focus on plans and analysis; read-only tools when helpful.\",\"name\":\"Plan\",\"value\":\"plan\"},{\"description\":\"Use tools to inspect the project and respond accurately.\",\"name\":\"Agent\",\"value\":\"agent\"}],\"type\":\"select\"}"
    );
    assert_eq!(
        options[1].render(),
        "{\"category\":\"model\",\"currentValue\":\"m1\",\"description\":\"Backend language model for this session.\",\"id\":\"model\",\"name\":\"Model\",\"options\":[{\"description\":null,\"name\":\"m1\",\"value\":\"m1\"},{\"description\":null,\"name\":\"m2\",\"value\":\"m2\"}],\"type\":\"select\"}"
    );
    assert_eq!(
        modes_state_json("ask").render(),
        "{\"availableModes\":[{\"description\":\"Answer without running workspace tools.\",\"id\":\"ask\",\"name\":\"Ask\"},{\"description\":\"Focus on plans and analysis; read-only tools when helpful.\",\"id\":\"plan\",\"name\":\"Plan\"},{\"description\":\"Use tools to inspect the project and respond accurately.\",\"id\":\"agent\",\"name\":\"Agent\"}],\"currentModeId\":\"ask\"}"
    );
}
