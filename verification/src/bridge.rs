//! The bridge itself: its state, and what it does with each request.

use vstd::prelude::*;

use crate::acp::{
    error_message, failure_message, response_message, send_error, send_failure, send_response,
    Outbox,
};
use crate::ids::{is_random_uuid, new_uuid};
use crate::json::{field_of, items_view, text_of, Fields, Json, JsonView, NumberView};
use crate::llm::{LlmConfig, LlmConfigView};
use crate::options::{
    build_config_options, chat_message, config_options, list_contains, make_message, merged_models,
    model_list_for_config_options, modes_state, modes_state_json,
};
use crate::protocol::{new_session, valid_mode, AcpError, AcpErrorView, Session, SessionView};
use crate::sessions::{fresh_sessions, SessionStore};
use crate::text::{characters, join_three, join_two, optional_text, same, texts};

verus! {

/// The version that the bridge tells its clients.
pub const VERSION: &'static str = "0.3.0";

/// The state of the bridge.
#[derive(Debug)]
pub struct Bridge {
    pub config: LlmConfig,
    pub sessions: SessionStore,
    /// The models that the backend is known to have.
    pub models: Vec<String>,
}

/// The open sessions, by id.
pub type Sessions = Map<Seq<char>, SessionView>;

impl Bridge {
    /// The sessions are in order.
    pub open spec fn wf(self) -> bool {
        self.sessions.wf()
    }

    /// A bridge without sessions that knows no models.
    pub fn new(config: LlmConfig) -> (r: Bridge)
        ensures
            r.wf(),
            r.config == config,
            r.sessions@ == Map::<Seq<char>, SessionView>::empty(),
            r.models@ == Seq::<String>::empty(),
    {
        Bridge { config, sessions: SessionStore::new(), models: Vec::new() }
    }

    /// The models that the backend is known to have.
    pub fn cached_models_read(&self) -> (r: &Vec<String>)
        ensures
            *r == self.models,
    {
        &self.models
    }

    /// Notes the models that the backend listed. An empty list tells nothing.
    pub fn cached_models_write(&mut self, models: Vec<String>)
        ensures
            final(self).models@ == (if models@.len() > 0 {
                models@
            } else {
                old(self).models@
            }),
            final(self).config == old(self).config,
            final(self).sessions == old(self).sessions,
    {
        if models.len() > 0 {
            self.models = models;
        }
    }
}

/// What handling a request does: the sessions afterwards, and the messages sent.
#[verifier::ext_equal]
pub struct Effect {
    pub sessions: Sessions,
    pub sent: Seq<JsonView>,
}

/// Whether an effect took place, and nothing else: the settings and the known models stay.
pub open spec fn took_effect(
    before: Bridge,
    after: Bridge,
    sent_before: Seq<JsonView>,
    sent_after: Seq<JsonView>,
    effect: Effect,
) -> bool {
    &&& after.wf()
    &&& after.config == before.config
    &&& after.models == before.models
    &&& after.sessions@ == effect.sessions
    &&& sent_after == sent_before + effect.sent
}

/// The sessions change, and one message is sent.
pub open spec fn reply(sessions: Sessions, message: JsonView) -> Effect {
    Effect { sessions, sent: seq![message] }
}

/// The request is refused: the sessions stay, and the error is sent.
pub open spec fn refusal(sessions: Sessions, id: JsonView, error: AcpErrorView) -> Effect {
    reply(sessions, failure_message(id, error))
}

/// The request is refused because of a parameter's value.
pub open spec fn invalid(sessions: Sessions, id: JsonView, message: Seq<char>) -> Effect {
    reply(sessions, error_message(id, -32602, message))
}

/// A parameter that must be a string. Where it is none, the error is sent.
pub fn require_text(out: &mut Outbox, id: &Json, params: &Json, key: &str) -> (r: Option<String>)
    ensures
        optional_text(r) == params@.text_at(key@),
        final(out)@ == (if r is Some {
            old(out)@
        } else {
            old(out)@.push(failure_message(id@, AcpErrorView::MissingParam { field: key@ }))
        }),
{
    let found: Option<String> = params.text_at(key);
    if found.is_none() {
        send_failure(out, id, &AcpError::MissingParam { field: key.to_owned() });
    }
    found
}

/// Closes the sessions that have been idle for `timeout_secs` seconds or longer, and counts
/// them. A timeout of 0 closes none.
pub fn evict_idle_sessions(bridge: &mut Bridge, timeout_secs: u64, now: u128) -> (r: usize)
    requires
        old(bridge).wf(),
    ensures
        final(bridge).wf(),
        final(bridge).config == old(bridge).config,
        final(bridge).models == old(bridge).models,
        final(bridge).sessions@ == after_eviction(
            old(bridge).sessions@,
            timeout_secs as nat,
            now as nat,
        ),
        r == old(bridge).sessions@.len() - final(bridge).sessions@.len(),
{
    if timeout_secs == 0 {
        return 0;
    }
    let timeout: u128 = timeout_secs as u128 * 1_000_000_000;
    let before: usize = bridge.sessions.len();
    bridge.sessions.retain_fresh(now, timeout);
    let after: usize = bridge.sessions.len();
    proof {
        let was = old(bridge).sessions@;
        let is = bridge.sessions@;
        assert(is.dom().subset_of(was.dom()));
        vstd::set_lib::lemma_len_subset(is.dom(), was.dom());
    }
    before - after
}

/// How many seconds to wait between two searches for idle sessions: the timeout, or a minute
/// where that is shorter.
pub fn eviction_interval_secs(timeout_secs: u64) -> (r: u64)
    ensures
        r == (if timeout_secs < 60 {
            timeout_secs as int
        } else {
            60
        }),
{
    if timeout_secs < 60 {
        timeout_secs
    } else {
        60
    }
}

/// The sessions that are left when the idle ones are closed.
pub open spec fn after_eviction(sessions: Sessions, timeout_secs: nat, now: nat) -> Sessions {
    if timeout_secs == 0 {
        sessions
    } else {
        fresh_sessions(sessions, now, timeout_secs * 1_000_000_000)
    }
}

/// The protocol version to speak: 0 with a client that asks for it, else 1.
pub open spec fn negotiated_version(params: JsonView) -> int {
    match params.get("protocolVersion"@) {
        Some(v) => if v.integer() == Some(0int) {
            0
        } else {
            1
        },
        None => 1,
    }
}

/// The version is the lower of the one that the client asks for and 1, so that it is never newer
/// than what either side speaks.
pub proof fn versions_are_never_too_new(params: JsonView, asked: int)
    requires
        params.get("protocolVersion"@) == Some(JsonView::Number(NumberView::Integer(asked))),
        asked >= 0,
    ensures
        negotiated_version(params) == (if asked < 1 {
            asked
        } else {
            1
        }),
{
}

/// What the bridge tells a client about itself.
pub open spec fn introduction(config: LlmConfigView, params: JsonView) -> JsonView {
    JsonView::Object(
        map![
            "protocolVersion"@ => JsonView::Number(NumberView::Integer(negotiated_version(params))),
            "agentInfo"@ => JsonView::Object(
                map![
                    "name"@ => JsonView::Text("acp-bridge ("@ + config.model + ")"@),
                    "version"@ => JsonView::Text(VERSION@),
                ],
            ),
            "agentCapabilities"@ => JsonView::Object(
                map![
                    "loadSession"@ => JsonView::Bool(false),
                    "mcpCapabilities"@ => JsonView::Object(
                        map!["http"@ => JsonView::Bool(false), "sse"@ => JsonView::Bool(false)],
                    ),
                    "promptCapabilities"@ => JsonView::Object(
                        map![
                            "audio"@ => JsonView::Bool(false),
                            "embeddedContext"@ => JsonView::Bool(false),
                            "image"@ => JsonView::Bool(false),
                        ],
                    ),
                    "sessionCapabilities"@ => JsonView::Object(
                        map!["close"@ => JsonView::Object(Map::empty())],
                    ),
                ],
            ),
            "authMethods"@ => JsonView::Array(Seq::empty()),
        ],
    )
}

/// Handles `initialize`: introduces the bridge.
pub fn handle_initialize(config: &LlmConfig, id: &Json, params: &Json, out: &mut Outbox)
    ensures
        final(out)@ == old(out)@.push(
            response_message(id@, introduction(config@, params@)),
        ),
{
    let version: u64 = match params.get("protocolVersion") {
        Some(v) => match v.as_u64() {
            Some(asked) => if asked < 1 {
                asked
            } else {
                1
            },
            None => 1,
        },
        None => 1,
    };
    let name: String = join_three("acp-bridge (", config.model.as_str(), ")");
    let info: Fields = Fields::new().with("name", Json::text(name.as_str())).with(
        "version",
        Json::text(VERSION),
    );
    let mcp: Fields = Fields::new().with("http", Json::Bool(false)).with("sse", Json::Bool(false));
    let prompt: Fields = Fields::new().with("audio", Json::Bool(false)).with(
        "embeddedContext",
        Json::Bool(false),
    ).with("image", Json::Bool(false));
    let session: Fields = Fields::new().with("close", Json::Object(Fields::new()));
    let capabilities: Fields = Fields::new().with("loadSession", Json::Bool(false)).with(
        "mcpCapabilities",
        Json::Object(mcp),
    ).with("promptCapabilities", Json::Object(prompt)).with(
        "sessionCapabilities",
        Json::Object(session),
    );
    let methods: Vec<Json> = Vec::new();
    assert(items_view(methods@) == Seq::<JsonView>::empty());
    let result: Fields = Fields::new().with("protocolVersion", Json::unsigned(version)).with(
        "agentInfo",
        Json::Object(info),
    ).with("agentCapabilities", Json::Object(capabilities)).with(
        "authMethods",
        Json::Array(methods),
    );
    send_response(out, id, Json::Object(result));
}

/// The sessions after a request to cancel: the one that it names, if there is one, is marked.
pub open spec fn after_cancel(sessions: Sessions, params: JsonView) -> Sessions {
    match params.text_at("sessionId"@) {
        Some(sid) => if sessions.contains_key(sid) {
            sessions.insert(sid, SessionView { cancelled: true, ..sessions[sid] })
        } else {
            sessions
        },
        None => sessions,
    }
}

/// Handles the notification `session/cancel`, which gets no answer. Says whether it named a
/// session.
pub fn handle_session_cancel(bridge: &mut Bridge, params: &Json) -> (r: bool)
    requires
        old(bridge).wf(),
    ensures
        final(bridge).wf(),
        final(bridge).config == old(bridge).config,
        final(bridge).models == old(bridge).models,
        final(bridge).sessions@ == after_cancel(old(bridge).sessions@, params@),
        r == (params@.text_at("sessionId"@) is Some && old(bridge).sessions@.contains_key(
            params@.text_at("sessionId"@)->0,
        )),
{
    match params.text_at("sessionId") {
        Some(sid) => match bridge.sessions.get_mut(sid.as_str()) {
            Some(session) => {
                session.request_cancel();
                true
            },
            None => false,
        },
        None => false,
    }
}

/// `session/end`: a session that is there is closed.
pub open spec fn end_effect(sessions: Sessions, id: JsonView, params: JsonView) -> Effect {
    match params.text_at("sessionId"@) {
        None => refusal(sessions, id, AcpErrorView::MissingParam { field: "sessionId"@ }),
        Some(sid) => if sessions.contains_key(sid) {
            reply(
                sessions.remove(sid),
                response_message(
                    id,
                    JsonView::Object(map!["status"@ => JsonView::Text("ended"@)]),
                ),
            )
        } else {
            refusal(sessions, id, AcpErrorView::UnknownSession { session_id: sid })
        },
    }
}

/// Handles `session/end` and `session/close`.
pub fn handle_session_end(bridge: &mut Bridge, id: &Json, params: &Json, out: &mut Outbox)
    requires
        old(bridge).wf(),
    ensures
        took_effect(
            *old(bridge),
            *final(bridge),
            old(out)@,
            final(out)@,
            end_effect(old(bridge).sessions@, id@, params@),
        ),
{
    let ghost effect = end_effect(bridge.sessions@, id@, params@);
    let session_id: String = match require_text(out, id, params, "sessionId") {
        Some(s) => s,
        None => {
            assert(out@ == old(out)@ + effect.sent);
            return;
        },
    };
    if bridge.sessions.remove(session_id.as_str()) {
        let result: Fields = Fields::new().with("status", Json::text("ended"));
        send_response(out, id, Json::Object(result));
    } else {
        assert(bridge.sessions@ == old(bridge).sessions@);
        send_failure(out, id, &AcpError::UnknownSession { session_id });
    }
    assert(out@ == old(out)@ + effect.sent);
}

/// `session/set_mode`: a session that is there gets the mode, if it is one.
pub open spec fn set_mode_effect(sessions: Sessions, id: JsonView, params: JsonView) -> Effect {
    match (params.text_at("sessionId"@), params.text_at("modeId"@)) {
        (None, _) => refusal(sessions, id, AcpErrorView::MissingParam { field: "sessionId"@ }),
        (_, None) => refusal(sessions, id, AcpErrorView::MissingParam { field: "modeId"@ }),
        (Some(sid), Some(mode)) => if !valid_mode(mode) {
            invalid(sessions, id, "Invalid modeId (expected ask, plan, or agent)"@)
        } else if sessions.contains_key(sid) {
            reply(
                sessions.insert(sid, SessionView { mode, ..sessions[sid] }),
                response_message(id, JsonView::Object(Map::empty())),
            )
        } else {
            refusal(sessions, id, AcpErrorView::UnknownSession { session_id: sid })
        },
    }
}

/// Handles `session/set_mode`.
pub fn handle_session_set_mode(bridge: &mut Bridge, id: &Json, params: &Json, out: &mut Outbox)
    requires
        old(bridge).wf(),
    ensures
        took_effect(
            *old(bridge),
            *final(bridge),
            old(out)@,
            final(out)@,
            set_mode_effect(old(bridge).sessions@, id@, params@),
        ),
{
    let ghost effect = set_mode_effect(bridge.sessions@, id@, params@);
    let session_id: String = match require_text(out, id, params, "sessionId") {
        Some(s) => s,
        None => {
            assert(out@ == old(out)@ + effect.sent);
            return;
        },
    };
    let mode_id: String = match require_text(out, id, params, "modeId") {
        Some(s) => s,
        None => {
            assert(out@ == old(out)@ + effect.sent);
            return;
        },
    };
    if !Session::is_valid_mode(mode_id.as_str()) {
        send_error(out, id, -32602, "Invalid modeId (expected ask, plan, or agent)");
        assert(out@ == old(out)@ + effect.sent);
        return;
    }
    match bridge.sessions.get_mut(session_id.as_str()) {
        Some(session) => {
            session.mode = mode_id;
            send_response(out, id, Json::Object(Fields::new()));
        },
        None => {
            send_failure(out, id, &AcpError::UnknownSession { session_id });
        },
    }
    assert(out@ == old(out)@ + effect.sent);
}

/// `session/set_config_option`: a session that is there gets the mode or the model, if it is one
/// on offer, and the answer tells what can be set.
pub open spec fn set_option_effect(
    config: LlmConfigView,
    listed: Seq<Seq<char>>,
    sessions: Sessions,
    id: JsonView,
    params: JsonView,
) -> Effect {
    let models = merged_models(config.model, listed);
    match (params.text_at("sessionId"@), params.text_at("configId"@), params.text_at("value"@)) {
        (None, _, _) => refusal(sessions, id, AcpErrorView::MissingParam { field: "sessionId"@ }),
        (_, None, _) => refusal(sessions, id, AcpErrorView::MissingParam { field: "configId"@ }),
        (_, _, None) => refusal(sessions, id, AcpErrorView::MissingParam { field: "value"@ }),
        (Some(sid), Some(option), Some(value)) => if option == "mode"@ {
            if !valid_mode(value) {
                invalid(sessions, id, "Invalid mode value (expected ask, plan, or agent)"@)
            } else {
                configure(sessions, id, sid, models, |s: SessionView| SessionView { mode: value, ..s })
            }
        } else if option == "model"@ {
            if !models.contains(value) {
                invalid(sessions, id, "Model value is not in the available models list"@)
            } else {
                configure(sessions, id, sid, models, |s: SessionView| SessionView { model: value, ..s })
            }
        } else {
            invalid(sessions, id, "Unknown config option: "@ + option)
        },
    }
}

/// A session that is there is changed, and the answer tells what can be set.
pub open spec fn configure(
    sessions: Sessions,
    id: JsonView,
    sid: Seq<char>,
    models: Seq<Seq<char>>,
    change: spec_fn(SessionView) -> SessionView,
) -> Effect {
    if sessions.contains_key(sid) {
        let session = change(sessions[sid]);
        reply(
            sessions.insert(sid, session),
            response_message(
                id,
                JsonView::Object(
                    map![
                        "configOptions"@ => JsonView::Array(
                            config_options(session.mode, session.model, models),
                        ),
                    ],
                ),
            ),
        )
    } else {
        refusal(sessions, id, AcpErrorView::UnknownSession { session_id: sid })
    }
}

/// Handles `session/set_config_option`.
pub fn handle_session_set_config_option(
    bridge: &mut Bridge,
    id: &Json,
    params: &Json,
    out: &mut Outbox,
)
    requires
        old(bridge).wf(),
    ensures
        took_effect(
            *old(bridge),
            *final(bridge),
            old(out)@,
            final(out)@,
            set_option_effect(
                old(bridge).config@,
                texts(old(bridge).models@),
                old(bridge).sessions@,
                id@,
                params@,
            ),
        ),
{
    let ghost effect = set_option_effect(
        bridge.config@,
        texts(bridge.models@),
        bridge.sessions@,
        id@,
        params@,
    );
    let session_id: String = match require_text(out, id, params, "sessionId") {
        Some(s) => s,
        None => {
            assert(out@ == old(out)@ + effect.sent);
            return;
        },
    };
    let config_id: String = match require_text(out, id, params, "configId") {
        Some(s) => s,
        None => {
            assert(out@ == old(out)@ + effect.sent);
            return;
        },
    };
    let value: String = match require_text(out, id, params, "value") {
        Some(s) => s,
        None => {
            assert(out@ == old(out)@ + effect.sent);
            return;
        },
    };
    let models: Vec<String> = model_list_for_config_options(&bridge.config, &bridge.models);
    let is_mode: bool = same(config_id.as_str(), "mode");
    if is_mode {
        if !Session::is_valid_mode(value.as_str()) {
            send_error(out, id, -32602, "Invalid mode value (expected ask, plan, or agent)");
            assert(out@ == old(out)@ + effect.sent);
            return;
        }
    } else if same(config_id.as_str(), "model") {
        if !list_contains(&models, value.as_str()) {
            send_error(out, id, -32602, "Model value is not in the available models list");
            assert(out@ == old(out)@ + effect.sent);
            return;
        }
    } else {
        let message: String = join_two("Unknown config option: ", config_id.as_str());
        send_error(out, id, -32602, message.as_str());
        assert(out@ == old(out)@ + effect.sent);
        return;
    }
    match bridge.sessions.get_mut(session_id.as_str()) {
        Some(session) => {
            if is_mode {
                session.mode = value;
            } else {
                session.model = value;
            }
            let options: Vec<Json> = build_config_options(session, &models);
            let result: Fields = Fields::new().with("configOptions", Json::Array(options));
            send_response(out, id, Json::Object(result));
        },
        None => {
            send_failure(out, id, &AcpError::UnknownSession { session_id });
        },
    }
    assert(out@ == old(out)@ + effect.sent);
}

/// The characters that Unicode counts as letters or numbers, as `char::is_alphanumeric` has them.
pub uninterp spec fn alphanumeric(c: char) -> bool;

/// `char::is_alphanumeric`: whether a character is a letter or a number depends on the character
/// alone. In ASCII these are the letters and the decimal digits.
#[verifier::external_body]
fn is_alphanumeric(c: char) -> (r: bool)
    ensures
        r == alphanumeric(c),
        (c as u32) < 128 ==> r == (('0' <= c && c <= '9') || ('a' <= c && c <= 'z') || ('A' <= c
            && c <= 'Z')),
{
    c.is_alphanumeric()
}

/// Whether a character may stand in a working directory.
pub open spec fn path_char(c: char) -> bool {
    alphanumeric(c) || c == '/' || c == '-' || c == '_' || c == '.' || c == ' ' || c == '~'
}

/// Whether an ASCII character may stand in a working directory: a letter, a digit or one of six
/// marks.
pub open spec fn plain_path_char(c: char) -> bool {
    ('0' <= c && c <= '9') || ('a' <= c && c <= 'z') || ('A' <= c && c <= 'Z') || c == '/' || c
        == '-' || c == '_' || c == '.' || c == ' ' || c == '~'
}

/// Whether the ASCII characters of a path that may stand in one are just the plain ones.
pub open spec fn plain_in_ascii(path: Seq<char>) -> bool {
    forall|i: int|
        0 <= i < path.len() && (path[i] as u32) < 128 ==> #[trigger] path_char(path[i])
            == plain_path_char(path[i])
}

/// A path without the characters that have no place in one.
pub open spec fn sanitized(path: Seq<char>) -> Seq<char> {
    path.filter(|c: char| path_char(c))
}

/// Drops the characters that have no place in a path, so that a path brings no quotes, line breaks
/// or other marks into a prompt. Of the ASCII characters, the letters, the digits and six marks
/// stay.
pub fn sanitize_cwd(path: &str) -> (r: String)
    ensures
        r@ == sanitized(path@),
        plain_in_ascii(path@),
{
    let chars: Vec<char> = characters(path);
    let mut kept: String = String::new();
    let mut i: usize = 0;
    reveal(Seq::filter);
    while i < chars.len()
        invariant
            i <= chars@.len(),
            kept@ == sanitized(chars@.take(i as int)),
            plain_in_ascii(chars@.take(i as int)),
        decreases chars@.len() - i,
    {
        let c: char = chars[i];
        proof {
            reveal(Seq::filter);
            assert(chars@.take(i + 1).drop_last() == chars@.take(i as int));
            assert(chars@.take(i + 1).last() == c);
        }
        if is_alphanumeric(c) || c == '/' || c == '-' || c == '_' || c == '.' || c == ' ' || c
            == '~' {
            kept.push(c);
        }
        i += 1;
    }
    assert(chars@.take(i as int) == path@);
    kept
}

/// A sanitised path holds only characters that may stand in one.
pub proof fn sanitized_paths_are_clean(path: Seq<char>)
    ensures
        forall|i: int| 0 <= i < sanitized(path).len() ==> path_char(#[trigger] sanitized(path)[i]),
    decreases path.len(),
{
    reveal(Seq::filter);
    if path.len() > 0 {
        sanitized_paths_are_clean(path.drop_last());
    }
}

/// What is left of a path holds no ASCII character but letters, digits and six marks: no quotes, no
/// line breaks, nothing that separates commands.
pub proof fn sanitized_paths_are_plain(path: Seq<char>)
    requires
        plain_in_ascii(path),
    ensures
        forall|i: int|
            0 <= i < sanitized(path).len() && (sanitized(path)[i] as u32) < 128
                ==> plain_path_char(#[trigger] sanitized(path)[i]),
    decreases path.len(),
{
    reveal(Seq::filter);
    if path.len() > 0 {
        let rest = path.drop_last();
        assert forall|i: int| 0 <= i < rest.len() && (rest[i] as u32) < 128 implies
            #[trigger] path_char(rest[i]) == plain_path_char(rest[i]) by {
            assert(path_char(path[i]) == plain_path_char(path[i]));
        }
        sanitized_paths_are_plain(rest);
        let last = path[path.len() - 1];
        assert((last as u32) < 128 ==> path_char(last) == plain_path_char(last));
        if path_char(last) {
            assert(sanitized(path) == sanitized(rest).push(last));
        } else {
            assert(sanitized(path) == sanitized(rest));
        }
    }
}

/// A path of such characters comes through unchanged.
pub proof fn clean_paths_are_preserved(path: Seq<char>)
    requires
        forall|i: int| 0 <= i < path.len() ==> path_char(#[trigger] path[i]),
    ensures
        sanitized(path) == path,
    decreases path.len(),
{
    reveal(Seq::filter);
    if path.len() > 0 {
        clean_paths_are_preserved(path.drop_last());
    }
}

/// Sanitising twice is sanitising once.
pub proof fn sanitizing_is_idempotent(path: Seq<char>)
    ensures
        sanitized(sanitized(path)) == sanitized(path),
{
    sanitized_paths_are_clean(path);
    clean_paths_are_preserved(sanitized(path));
}

/// The path that the parameters of `session/new` name.
pub open spec fn requested_path(params: JsonView) -> Seq<char> {
    match params.text_at("cwd"@) {
        Some(path) => path,
        None => "/tmp"@,
    }
}

/// The working directory that the parameters of `session/new` ask for.
pub open spec fn requested_cwd(params: JsonView) -> Seq<char> {
    sanitized(requested_path(params))
}

/// The system prompt of a new session: the one that is set, or one that tells the working
/// directory.
pub open spec fn system_prompt_for(set: Option<Seq<char>>, cwd: Seq<char>) -> Seq<char> {
    match set {
        Some(prompt) => prompt,
        None => "You are a helpful coding assistant. The user's working directory is: "@ + cwd,
    }
}

/// Whether another session may be opened.
pub open spec fn has_room(config: LlmConfigView, sessions: Sessions) -> bool {
    config.max_sessions == 0 || sessions.len() < config.max_sessions
}

/// `session/new`: where there is room, a session is opened under the id, and the answer tells
/// the id and what can be set.
pub open spec fn new_session_effect(
    config: LlmConfigView,
    listed: Seq<Seq<char>>,
    sessions: Sessions,
    id: JsonView,
    params: JsonView,
    session_id: Seq<char>,
    system_prompt: Option<Seq<char>>,
    now: nat,
) -> Effect {
    if !has_room(config, sessions) {
        refusal(sessions, id, AcpErrorView::SessionLimitReached { max: config.max_sessions })
    } else {
        let cwd = requested_cwd(params);
        let session = new_session(
            chat_message("system"@, system_prompt_for(system_prompt, cwd)),
            cwd,
            config.model,
            now,
        );
        reply(
            sessions.insert(session_id, session),
            response_message(
                id,
                JsonView::Object(
                    map![
                        "sessionId"@ => JsonView::Text(session_id),
                        "configOptions"@ => JsonView::Array(
                            config_options(
                                session.mode,
                                session.model,
                                merged_models(config.model, listed),
                            ),
                        ),
                        "modes"@ => modes_state(session.mode),
                    ],
                ),
            ),
        )
    }
}

/// Opens a session under the given id.
pub fn open_session(
    bridge: &mut Bridge,
    id: &Json,
    params: &Json,
    session_id: String,
    system_prompt: Option<String>,
    now: u128,
    out: &mut Outbox,
)
    requires
        old(bridge).wf(),
    ensures
        took_effect(
            *old(bridge),
            *final(bridge),
            old(out)@,
            final(out)@,
            new_session_effect(
                old(bridge).config@,
                texts(old(bridge).models@),
                old(bridge).sessions@,
                id@,
                params@,
                session_id@,
                optional_text(system_prompt),
                now as nat,
            ),
        ),
        has_room(old(bridge).config@, old(bridge).sessions@) ==> plain_in_ascii(
            requested_path(params@),
        ),
{
    let ghost effect = new_session_effect(
        bridge.config@,
        texts(bridge.models@),
        bridge.sessions@,
        id@,
        params@,
        session_id@,
        optional_text(system_prompt),
        now as nat,
    );
    if bridge.config.max_sessions > 0 {
        if bridge.sessions.len() >= bridge.config.max_sessions {
            send_failure(
                out,
                id,
                &AcpError::SessionLimitReached { max: bridge.config.max_sessions },
            );
            assert(out@ == old(out)@ + effect.sent);
            return;
        }
    }
    let cwd: String = match params.text_at("cwd") {
        Some(path) => sanitize_cwd(path.as_str()),
        None => sanitize_cwd("/tmp"),
    };
    let prompt: String = match system_prompt {
        Some(prompt) => prompt,
        None => join_two(
            "You are a helpful coding assistant. The user's working directory is: ",
            cwd.as_str(),
        ),
    };
    let models: Vec<String> = model_list_for_config_options(&bridge.config, &bridge.models);
    let session: Session = Session::new(
        make_message("system", prompt.as_str()),
        cwd,
        bridge.config.model.clone(),
        now,
    );
    let options: Vec<Json> = build_config_options(&session, &models);
    let modes: Json = modes_state_json(session.mode.as_str());
    let result: Fields = Fields::new().with("sessionId", Json::text(session_id.as_str())).with(
        "configOptions",
        Json::Array(options),
    ).with("modes", modes);
    bridge.sessions.insert(session_id, session);
    send_response(out, id, Json::Object(result));
    assert(out@ == old(out)@ + effect.sent);
}

/// Handles `session/new`: opens a session under a fresh id.
pub fn handle_session_new(
    bridge: &mut Bridge,
    id: &Json,
    params: &Json,
    system_prompt: Option<String>,
    now: u128,
    out: &mut Outbox,
)
    requires
        old(bridge).wf(),
    ensures
        exists|session_id: Seq<char>|
            is_random_uuid(session_id) && #[trigger] took_effect(
                *old(bridge),
                *final(bridge),
                old(out)@,
                final(out)@,
                new_session_effect(
                    old(bridge).config@,
                    texts(old(bridge).models@),
                    old(bridge).sessions@,
                    id@,
                    params@,
                    session_id,
                    optional_text(system_prompt),
                    now as nat,
                ),
            ),
        has_room(old(bridge).config@, old(bridge).sessions@) ==> plain_in_ascii(
            requested_path(params@),
        ),
{
    let session_id: String = new_uuid();
    open_session(bridge, id, params, session_id, system_prompt, now, out);
}

/// Sanitising goes character by character: each that may stand in a path stays where it is, and each
/// other is dropped, whatever stands around it.
pub proof fn characters_are_sanitized_one_by_one(a: Seq<char>, b: Seq<char>, c: char)
    ensures
        sanitized(Seq::empty()) == Seq::<char>::empty(),
        path_char(c) ==> sanitized(seq![c]) == seq![c],
        !path_char(c) ==> sanitized(seq![c]) == Seq::<char>::empty(),
        sanitized(a + b) == sanitized(a) + sanitized(b),
    decreases b.len(),
{
    reveal(Seq::filter);
    assert(seq![c].drop_last() == Seq::<char>::empty());
    assert(sanitized(Seq::<char>::empty()) == Seq::<char>::empty());
    if path_char(c) {
        assert(sanitized(seq![c]) == seq![c]);
    }
    if b.len() == 0 {
        assert(a + b == a);
        assert(sanitized(a) + sanitized(b) == sanitized(a));
    } else {
        let rest = b.drop_last();
        let last = b.last();
        characters_are_sanitized_one_by_one(a, rest, c);
        assert((a + b).drop_last() == a + rest);
        assert((a + b).last() == last);
        if path_char(last) {
            assert(sanitized(b) == sanitized(rest).push(last));
            assert(sanitized(a + b) == sanitized(a + rest).push(last));
            assert((sanitized(a) + sanitized(rest)).push(last) == sanitized(a) + sanitized(
                rest,
            ).push(last));
        } else {
            assert(sanitized(b) == sanitized(rest));
            assert(sanitized(a + b) == sanitized(a + rest));
        }
    }
}

/// What may stand in a path is a letter or a number of any script, or one of six marks.
pub proof fn path_characters_are_letters_numbers_and_marks(c: char)
    ensures
        path_char(c) <==> alphanumeric(c) || c == '/' || c == '-' || c == '_' || c == '.' || c
            == ' ' || c == '~',
{
}

/// The bridge tells its name with the configured model, its version and the version of the protocol,
/// which is 0 just where the client asks for that. What it can do depends on nothing.
pub proof fn the_bridge_tells_who_it_is(
    config: LlmConfigView,
    params: JsonView,
    other: LlmConfigView,
    other_params: JsonView,
)
    ensures
        introduction(config, params).get("agentCapabilities"@) == introduction(
            other,
            other_params,
        ).get("agentCapabilities"@),
        ({
            let told = introduction(config, params);
            let info = told.get("agentInfo"@);
            let asked = params.get("protocolVersion"@);
            let zero = asked == Some(JsonView::Number(NumberView::Integer(0)));
            &&& text_of(field_of(info, "name"@)) == Some("acp-bridge ("@ + config.model + ")"@)
            &&& text_of(field_of(info, "version"@)) == Some("0.3.0"@)
            &&& told.get("protocolVersion"@) == Some(
                JsonView::Number(
                    NumberView::Integer(
                        if zero {
                            0
                        } else {
                            1
                        },
                    ),
                ),
            )
            &&& told.get("authMethods"@) == Some(JsonView::Array(Seq::empty()))
            &&& field_of(told.get("agentCapabilities"@), "loadSession"@) == Some(
                JsonView::Bool(false),
            )
            &&& field_of(
                field_of(told.get("agentCapabilities"@), "sessionCapabilities"@),
                "close"@,
            ) is Some
        }),
{
    reveal_strlit("protocolVersion");
    reveal_strlit("agentInfo");
    reveal_strlit("agentCapabilities");
    reveal_strlit("authMethods");
    reveal_strlit("name");
    reveal_strlit("version");
    reveal_strlit("loadSession");
    reveal_strlit("mcpCapabilities");
    reveal_strlit("promptCapabilities");
    reveal_strlit("sessionCapabilities");
    assert("protocolVersion"@.len() == 15);
    assert("agentInfo"@.len() == 9);
    assert("agentCapabilities"@.len() == 17);
    assert("authMethods"@.len() == 11);
    assert("name"@.len() == 4);
    assert("version"@.len() == 7);
    assert("loadSession"@.len() == 11);
    assert("mcpCapabilities"@.len() == 15);
    assert("promptCapabilities"@.len() == 18);
    assert("sessionCapabilities"@.len() == 19);
}

/// A request to cancel marks the session that it names, if that is open, and changes nothing else.
pub proof fn cancelling_marks_one_session(sessions: Sessions, params: JsonView)
    ensures
        ({
            let after = after_cancel(sessions, params);
            let named = params.text_at("sessionId"@);
            &&& named is None || !sessions.contains_key(named->0) ==> after == sessions
            &&& named is Some && sessions.contains_key(named->0) ==> after == sessions.insert(
                named->0,
                after[named->0],
            ) && after[named->0] == (SessionView { cancelled: true, ..sessions[named->0] })
        }),
{
}

/// A session works in the directory that the client names, or in a temporary one, without what has
/// no place in a path. Its system prompt is the one that is set, or tells the directory.
pub proof fn sessions_begin_as_requested(params: JsonView, cwd: Seq<char>, prompt: Seq<char>)
    ensures
        params.text_at("cwd"@) is Some ==> requested_cwd(params) == sanitized(
            params.text_at("cwd"@)->0,
        ),
        params.text_at("cwd"@) is None ==> requested_cwd(params) == sanitized("/tmp"@),
        system_prompt_for(Some(prompt), cwd) == prompt,
        system_prompt_for(None, cwd)
            == "You are a helpful coding assistant. The user's working directory is: "@ + cwd,
{
}

} // verus!
