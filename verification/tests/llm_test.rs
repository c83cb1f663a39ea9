//! Requests to the model, retries, the probe, and streams.

use acp_bridge::config::Environment;
use acp_bridge::json::{parse, Json};
use acp_bridge::llm::{
    after_attempt, build_body, chat, configured_model_listed, is_retryable, is_success,
    model_names, probe_backend, stream_chat, HttpOutcome, HttpReply, LlmConfig, NextStep,
    ProbeStage, ProbeStep, StreamChunk,
};
use acp_bridge::options::make_message;
use acp_bridge::stream::{
    content_chunk, delta_text, event_chunk, StreamDecoder, STREAM_BUFFER_LIMIT,
};

fn json(text: &str) -> Json {
    parse(text).unwrap()
}

fn config(base_url: &str) -> LlmConfig {
    LlmConfig::from_env(Environment {
        llm_base_url: Some(base_url.to_string()),
        ollama_base_url: None,
        llm_model: Some("base".to_string()),
        ollama_model: None,
        llm_api_key: Some("key".to_string()),
        ollama_api_key: None,
        llm_temperature: None,
        llm_max_tokens: None,
        llm_timeout: Some("9".to_string()),
        llm_max_history_turns: None,
        llm_max_sessions: None,
        llm_session_idle_timeout: None,
    })
}

fn content(s: &str) -> StreamChunk {
    StreamChunk::Content(s.to_string())
}

fn event(s: &str) -> String {
    format!("data: {{\"choices\":[{{\"delta\":{{\"content\":\"{s}\"}},\"index\":0}}]}}\n\n")
}

// --- requests -------------------------------------------------------------

#[test]
fn bodies() {
    let mut c = config("http://h/v1");
    let messages = vec![make_message("user", "hi")];
    assert_eq!(
        build_body(&c, &messages, "m", false, None).render(),
        "{\"messages\":[{\"content\":\"hi\",\"role\":\"user\"}],\"model\":\"m\",\"stream\":false}"
    );
    c.temperature = serde_json::Number::from_f64(0.7);
    c.max_tokens = Some(100);
    let tools = vec![json("{\"type\": \"function\"}")];
    assert_eq!(
        build_body(&c, &Vec::new(), "m", true, Some(&tools)).render(),
        "{\"max_tokens\":100,\"messages\":[],\"model\":\"m\",\"stream\":true,\"temperature\":0.7,\"tools\":[{\"type\":\"function\"}]}"
    );
}

#[test]
fn chat_requests() {
    let c = config("http://h/v1");
    let r = chat(&c, &Vec::new(), Some("mine"), None);
    assert_eq!(r.url, "http://h/v1/chat/completions");
    assert_eq!(r.authorization, "Bearer key");
    assert_eq!(r.timeout_secs, 9);
    assert_eq!(
        r.body.render(),
        "{\"messages\":[],\"model\":\"mine\",\"stream\":false}"
    );
    let r = stream_chat(&c, &Vec::new(), None);
    assert_eq!(
        r.body.render(),
        "{\"messages\":[],\"model\":\"base\",\"stream\":true}"
    );
    let r = stream_chat(&c, &Vec::new(), Some("other"));
    assert_eq!(r.body.text_at("model").unwrap(), "other");
    let r = chat(&c, &Vec::new(), None, Some(&vec![Json::Null]));
    assert_eq!(
        r.body.render(),
        "{\"messages\":[],\"model\":\"base\",\"stream\":false,\"tools\":[null]}"
    );
}

// --- retries --------------------------------------------------------------

#[test]
fn statuses() {
    for status in 0..=1000 {
        assert_eq!(is_success(status), (200..300).contains(&status));
        assert_eq!(
            is_retryable(status),
            [408, 429, 500, 501, 502, 503, 504].contains(&status)
        );
    }
}

fn delay(attempt: u32, outcome: HttpOutcome) -> Option<u64> {
    match after_attempt(attempt, outcome) {
        NextStep::Retry { delay_ms } => Some(delay_ms),
        _ => None,
    }
}

fn reason(attempt: u32, outcome: HttpOutcome) -> String {
    match after_attempt(attempt, outcome) {
        NextStep::GiveUp { reason } => reason,
        other => panic!("{:?}", other),
    }
}

#[test]
fn transient_failures_are_retried_three_times() {
    assert_eq!(delay(0, HttpOutcome::Status(503)), Some(500));
    assert_eq!(delay(1, HttpOutcome::Status(429)), Some(1000));
    assert_eq!(delay(2, HttpOutcome::Status(408)), Some(2000));
    assert_eq!(delay(3, HttpOutcome::Status(503)), None);
    assert_eq!(
        reason(3, HttpOutcome::Status(503)),
        "LLM HTTP 503 Service Unavailable: Service Unavailable"
    );
    let lost = || HttpOutcome::Transport { transient: true, message: "timed out".to_string() };
    assert_eq!(delay(0, lost()), Some(500));
    assert_eq!(delay(2, lost()), Some(2000));
    assert_eq!(reason(3, lost()), "HTTP request failed: timed out");
    assert_eq!(
        reason(u32::MAX, HttpOutcome::Status(500)),
        "LLM HTTP 500 Internal Server Error: Internal Server Error"
    );
}

#[test]
fn other_failures_are_reported_at_once() {
    assert_eq!(
        reason(0, HttpOutcome::Status(404)),
        "LLM HTTP 404 Not Found: Not Found"
    );
    assert_eq!(
        reason(0, HttpOutcome::Status(599)),
        "LLM HTTP 599 <unknown status code>: Unknown error"
    );
    let bad = HttpOutcome::Transport { transient: false, message: "bad url".to_string() };
    assert_eq!(reason(0, bad), "HTTP request failed: bad url");
}

#[test]
fn success_is_accepted() {
    for attempt in 0..5 {
        assert!(matches!(
            after_attempt(attempt, HttpOutcome::Status(200)),
            NextStep::Accept
        ));
    }
    assert!(matches!(
        after_attempt(0, HttpOutcome::Status(299)),
        NextStep::Accept
    ));
}

// --- the probe ------------------------------------------------------------

fn ask_tags(base_url: &str) -> String {
    match probe_backend(&config(base_url), ProbeStage::Start) {
        ProbeStep::AskTags { url } => url,
        other => panic!("{:?}", other),
    }
}

#[test]
fn the_probe_asks_ollama_first() {
    assert_eq!(ask_tags("http://h:1/v1"), "http://h:1/api/tags");
    assert_eq!(ask_tags("http://h:1"), "http://h:1/api/tags");
    assert_eq!(ask_tags("http://h:1//"), "http://h:1/api/tags");
    assert_eq!(ask_tags("http://h:1/v1/"), "http://h:1/v1/api/tags");
}

fn listed(stage: ProbeStage) -> Vec<String> {
    match probe_backend(&config("http://h/v1"), stage) {
        ProbeStep::Listed { models } => models,
        other => panic!("{:?}", other),
    }
}

#[test]
fn either_list_will_do() {
    let tags = "{\"models\": [{\"name\": \"a:1\"}, {\"id\": \"x\"}, 3, {\"name\": \"b\"}]}";
    let none: Vec<String> = Vec::new();
    assert_eq!(
        listed(ProbeStage::Tags(HttpReply::Answer { status: 200, body: parse(tags) })),
        vec!["a:1", "b"]
    );
    assert_eq!(
        listed(ProbeStage::Tags(HttpReply::Answer { status: 204, body: parse("[]") })),
        none
    );
    let data = "{\"data\": [{\"id\": \"m\", \"name\": \"n\"}]}";
    assert_eq!(
        listed(ProbeStage::Models(HttpReply::Answer { status: 200, body: parse(data) })),
        vec!["m"]
    );
    assert_eq!(
        listed(ProbeStage::Models(HttpReply::Answer { status: 200, body: None })),
        none
    );
    assert_eq!(model_names(&json(data), "data", "name"), vec!["n"]);
}

#[test]
fn the_second_list_is_asked_for_where_the_first_fails() {
    let failures = vec![
        HttpReply::Failed { reason: "refused".to_string() },
        HttpReply::Answer { status: 404, body: parse("{}") },
        HttpReply::Answer { status: 200, body: None },
    ];
    for reply in failures {
        match probe_backend(&config("http://h/v1"), ProbeStage::Tags(reply)) {
            ProbeStep::AskModels { url, authorization } => {
                assert_eq!(url, "http://h/v1/models");
                assert_eq!(authorization, "Bearer key");
            }
            other => panic!("{:?}", other),
        }
    }
}

#[test]
fn a_backend_that_is_not_there_is_reported() {
    let c = config("http://h/v1");
    let reply = HttpReply::Failed { reason: "refused".to_string() };
    match probe_backend(&c, ProbeStage::Models(reply)) {
        ProbeStep::Unreachable { reason } => assert_eq!(reason, "refused"),
        other => panic!("{:?}", other),
    }
    let reply = HttpReply::Answer { status: 401, body: parse("{}") };
    match probe_backend(&c, ProbeStage::Models(reply)) {
        ProbeStep::Unreachable { reason } => assert_eq!(reason, "HTTP 401 Unauthorized"),
        other => panic!("{:?}", other),
    }
}

#[test]
fn the_configured_model_is_recognised() {
    let c = config("http://h/v1");
    let is = |names: &[&str]| {
        configured_model_listed(&c, &names.iter().map(|s| s.to_string()).collect())
    };
    assert!(is(&["x", "base"]));
    assert!(is(&["base:7b"]));
    assert!(is(&["bas:1"]));
    assert!(is(&[":latest"]));
    assert!(!is(&["basic"]));
    assert!(!is(&["x"]));
    assert!(!is(&[]));
}

// --- streams --------------------------------------------------------------

#[test]
fn events() {
    assert_eq!(event_chunk("data: [DONE]"), Some(StreamChunk::Done));
    assert_eq!(event_chunk(event("hi").trim()), Some(content("hi")));
    assert_eq!(event_chunk(event("").trim()), None);
    assert_eq!(event_chunk("data: {"), None);
    assert_eq!(event_chunk("data: 1"), None);
    assert_eq!(event_chunk("data:[DONE]"), None);
    assert_eq!(event_chunk(": comment"), None);
    assert_eq!(event_chunk(""), None);
    assert_eq!(content_chunk(None), None);
    assert_eq!(
        delta_text(&json("{\"choices\":[{\"delta\":{\"content\":\"x\"}}]}")),
        Some("x".to_string())
    );
    assert_eq!(delta_text(&json("{\"choices\":[]}")), None);
    assert_eq!(delta_text(&json("{}")), None);
}

#[test]
fn a_stream_is_read_line_by_line() {
    let mut stream = StreamDecoder::new();
    let all = format!("{}{}data: [DONE]\n\n", event("Hello"), event(" world"));
    assert_eq!(
        stream.feed(all.as_bytes()),
        vec![content("Hello"), content(" world"), StreamChunk::Done]
    );
    assert!(stream.finished);
    assert_eq!(stream.feed(event("more").as_bytes()), vec![]);
    assert_eq!(stream.close(None), vec![]);
}

#[test]
fn cuts_make_no_difference() {
    let all = format!("{}\r\n: ping\n{}data: [DONE]\r\n", event("one"), event("two"));
    for cut in 0..=all.len() {
        let mut stream = StreamDecoder::new();
        let mut chunks = stream.feed(&all.as_bytes()[..cut]);
        chunks.extend(stream.feed(&all.as_bytes()[cut..]));
        assert_eq!(chunks, vec![content("one"), content("two"), StreamChunk::Done]);
    }
}

#[test]
fn both_line_endings_will_do() {
    let mut a = StreamDecoder::new();
    let mut b = StreamDecoder::new();
    let lf = event("x");
    let crlf = lf.replace('\n', "\r\n");
    assert_eq!(a.feed_text(&lf), vec![content("x")]);
    assert_eq!(b.feed_text(&crlf), vec![content("x")]);
}

#[test]
fn a_whole_body_may_have_either_line_ending() {
    let lf = format!("{}: ping\n{}data: [DONE]\n\n", event("one"), event("two"));
    let crlf = lf.replace('\n', "\r\n");
    for size in 1..20 {
        let mut yields = Vec::new();
        for body in [&lf, &crlf] {
            let mut stream = StreamDecoder::new();
            let mut chunks = Vec::new();
            for piece in body.as_bytes().chunks(size) {
                chunks.extend(stream.feed(piece));
            }
            chunks.extend(stream.close(None));
            yields.push(chunks);
        }
        assert_eq!(yields[0], vec![content("one"), content("two"), StreamChunk::Done]);
        assert_eq!(yields[0], yields[1]);
    }
}

#[test]
fn an_error_comes_behind_the_text_and_in_front_of_the_end() {
    let mut stream = StreamDecoder::new();
    let mut chunks = stream.feed(event("one").as_bytes());
    chunks.extend(stream.close(Some("reset".to_string())));
    assert_eq!(
        chunks,
        vec![content("one"), StreamChunk::Error("reset".to_string()), StreamChunk::Done]
    );
}

#[test]
fn what_is_not_utf8_is_replaced() {
    let mut stream = StreamDecoder::new();
    let mut bytes = b"data: {\"choices\":[{\"delta\":{\"content\":\"a".to_vec();
    bytes.push(0xff);
    bytes.extend_from_slice(b"b\"}}]}\n");
    assert_eq!(stream.feed(&bytes), vec![content("a\u{fffd}b")]);
    assert_eq!(stream.feed(event("é").as_bytes()), vec![content("é")]);
}

#[test]
fn a_stream_that_breaks_off_ends() {
    let mut stream = StreamDecoder::new();
    assert_eq!(stream.feed(b"data: {\"choi"), vec![]);
    assert_eq!(stream.buffer, "data: {\"choi");
    assert_eq!(
        stream.close(Some("reset".to_string())),
        vec![StreamChunk::Error("reset".to_string()), StreamChunk::Done]
    );
    assert_eq!(stream.close(Some("reset".to_string())), vec![]);
    let mut stream = StreamDecoder::new();
    assert_eq!(stream.close(None), vec![StreamChunk::Done]);
}

#[test]
fn a_stream_holds_back_ten_mebibytes_at_most() {
    assert_eq!(STREAM_BUFFER_LIMIT, 10 * 1024 * 1024);
    let mut stream = StreamDecoder::new();
    let half = "é".repeat(STREAM_BUFFER_LIMIT / 4);
    assert_eq!(stream.feed(half.as_bytes()), vec![]);
    assert_eq!(stream.feed(half.as_bytes()), vec![]);
    assert_eq!(stream.buffer.len(), STREAM_BUFFER_LIMIT);
    assert_eq!(
        stream.feed(b"x"),
        vec![
            StreamChunk::Error("Stream buffer limit exceeded".to_string()),
            StreamChunk::Done
        ]
    );
    assert!(stream.finished);
    assert_eq!(stream.buffer, "");
}
