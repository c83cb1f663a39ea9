//! The shape of the messages to the client.

use acp_bridge::acp::{
    infer_tool_kind, notify_text, notify_thinking, notify_tool_done, notify_tool_start, send,
    send_error, send_failure, send_notification, send_response, send_session_update, Outbox,
};
use acp_bridge::json::{parse, Json};
use acp_bridge::protocol::AcpError;

fn json(text: &str) -> Json {
    parse(text).unwrap()
}

/// The only message in an outbox, as it reads once it was written.
fn only(out: &mut Outbox) -> Json {
    let lines = out.take_lines();
    assert_eq!(lines.len(), 1);
    parse(&lines[0]).unwrap()
}

fn at<'a>(value: &'a Json, path: &[&str]) -> &'a Json {
    let mut now = value;
    for key in path {
        now = now.get(key).unwrap();
    }
    now
}

fn text(value: &Json, path: &[&str]) -> String {
    at(value, path).as_str().unwrap().to_string()
}

#[test]
fn json_rpc_response_structure() {
    let mut out = Outbox::new();
    let result = json(r#"{"agentInfo": {"name": "test", "version": "0.1.0"}}"#);
    send_response(&mut out, &Json::unsigned(1), result);
    let msg = only(&mut out);

    assert_eq!(text(&msg, &["jsonrpc"]), "2.0");
    assert_eq!(at(&msg, &["id"]).as_u64(), Some(1));
    assert!(at(&msg, &["result", "agentInfo", "name"]).as_str().is_some());
}

#[test]
fn json_rpc_error_structure() {
    let mut out = Outbox::new();
    send_error(&mut out, &Json::unsigned(5), -32601, "Method not found: foo");
    let msg = only(&mut out);

    assert_eq!(at(&msg, &["error", "code"]).render(), "-32601");
    assert_eq!(text(&msg, &["error", "message"]), "Method not found: foo");
}

#[test]
fn notification_has_no_id() {
    let mut out = Outbox::new();
    let params = json(
        r#"{"sessionId": "sid-1", "update": {"sessionUpdate": "agent_message_chunk",
            "content": {"type": "text", "text": "hi"}}}"#,
    );
    send_notification(&mut out, "session/update", params);
    let msg = only(&mut out);

    assert!(msg.get("id").is_none());
    assert_eq!(text(&msg, &["method"]), "session/update");
    assert_eq!(text(&msg, &["params", "sessionId"]), "sid-1");
    assert_eq!(
        text(&msg, &["params", "update", "sessionUpdate"]),
        "agent_message_chunk"
    );
}

#[test]
fn notification_text_content_format() {
    let mut out = Outbox::new();
    notify_text(&mut out, "s", "Hello, world!");
    let msg = only(&mut out);
    let params = at(&msg, &["params"]);

    assert_eq!(text(params, &["update", "content", "text"]), "Hello, world!");
    assert_eq!(text(params, &["update", "content", "type"]), "text");
}

#[test]
fn tool_call_notification_format() {
    let mut out = Outbox::new();
    notify_tool_start(&mut out, "s", "tc-1", "read_file", "read");
    let params = only(&mut out);
    assert_eq!(text(&params, &["params", "update", "toolCallId"]), "tc-1");

    notify_tool_done(&mut out, "s", "tc-1", "completed");
    let done_params = only(&mut out);
    assert_eq!(text(&done_params, &["params", "update", "status"]), "completed");
}

#[test]
fn messages_read_as_expected_in_full() {
    let mut out = Outbox::new();
    send_response(&mut out, &json("\"a\""), json("{}"));
    send_error(&mut out, &Json::Null, -1, "no");
    send_notification(&mut out, "m", json("[1]"));
    send_session_update(&mut out, "s", json("{\"x\": true}"));
    notify_text(&mut out, "s", "t");
    notify_thinking(&mut out, "s");
    notify_tool_start(&mut out, "s", "i", "title", "read");
    notify_tool_done(&mut out, "s", "i", "failed");
    assert_eq!(
        out.take_lines(),
        vec![
            "{\"id\":\"a\",\"jsonrpc\":\"2.0\",\"result\":{}}\n",
            "{\"error\":{\"code\":-1,\"message\":\"no\"},\"id\":null,\"jsonrpc\":\"2.0\"}\n",
            "{\"jsonrpc\":\"2.0\",\"method\":\"m\",\"params\":[1]}\n",
            "{\"jsonrpc\":\"2.0\",\"method\":\"session/update\",\"params\":{\"sessionId\":\"s\",\"update\":{\"x\":true}}}\n",
            "{\"jsonrpc\":\"2.0\",\"method\":\"session/update\",\"params\":{\"sessionId\":\"s\",\"update\":{\"content\":{\"text\":\"t\",\"type\":\"text\"},\"sessionUpdate\":\"agent_message_chunk\"}}}\n",
            "{\"jsonrpc\":\"2.0\",\"method\":\"session/update\",\"params\":{\"sessionId\":\"s\",\"update\":{\"content\":{\"text\":\"\",\"type\":\"text\"},\"sessionUpdate\":\"agent_thought_chunk\"}}}\n",
            "{\"jsonrpc\":\"2.0\",\"method\":\"session/update\",\"params\":{\"sessionId\":\"s\",\"update\":{\"kind\":\"read\",\"sessionUpdate\":\"tool_call\",\"title\":\"title\",\"toolCallId\":\"i\"}}}\n",
            "{\"jsonrpc\":\"2.0\",\"method\":\"session/update\",\"params\":{\"sessionId\":\"s\",\"update\":{\"sessionUpdate\":\"tool_call_update\",\"status\":\"failed\",\"toolCallId\":\"i\"}}}\n",
        ]
    );
    assert_eq!(out.take_lines().len(), 0);
}

#[test]
fn a_message_takes_one_line_whatever_it_holds() {
    let mut out = Outbox::new();
    send(&mut out, Json::text("one\ntwo\r\n\"three\"\u{1}\u{2028}"));
    let lines = out.take_lines();
    assert_eq!(lines, vec!["\"one\\ntwo\\r\\n\\\"three\\\"\\u0001\u{2028}\"\n"]);
}

#[test]
fn failures_carry_code_and_message() {
    let mut out = Outbox::new();
    send_failure(
        &mut out,
        &Json::unsigned(3),
        &AcpError::SessionLimitReached { max: 12 },
    );
    let msg = only(&mut out);
    assert_eq!(at(&msg, &["error", "code"]).render(), "-32004");
    assert_eq!(
        text(&msg, &["error", "message"]),
        "Session limit reached (max: 12)"
    );
    assert_eq!(at(&msg, &["id"]).as_u64(), Some(3));
    assert!(msg.get("result").is_none());
}

#[test]
fn tool_kinds() {
    assert_eq!(infer_tool_kind("read_file"), "read");
    assert_eq!(infer_tool_kind("list_dir"), "read");
    assert_eq!(infer_tool_kind("search_code"), "search");
    assert_eq!(infer_tool_kind("llm_chat"), "think");
    assert_eq!(infer_tool_kind("web_search"), "search");
    assert_eq!(infer_tool_kind("read_and_search"), "search");
    assert_eq!(infer_tool_kind("thread_dump"), "read");
    assert_eq!(infer_tool_kind("Search"), "other");
    assert_eq!(infer_tool_kind(""), "other");
}
