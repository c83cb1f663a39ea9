//! From a request to the handler for its method.

use vstd::prelude::*;

use crate::acp::{
    answers, error_message, failure_message, messages_hold_what_they_tell, response_message,
    responses_answer_their_request, send_failure, session_update_message, Outbox,
};
use crate::bridge::{
    after_cancel, after_eviction, end_effect, handle_initialize, handle_session_cancel,
    handle_session_end, handle_session_new, handle_session_set_config_option,
    handle_session_set_mode, has_room, introduction, new_session_effect, plain_in_ascii, refusal,
    requested_cwd, requested_path, sanitized, set_mode_effect, set_option_effect, system_prompt_for,
    the_bridge_tells_who_it_is, took_effect, Bridge, Effect, Sessions,
};
use crate::ids::is_random_uuid;
use crate::json::{field_of, items_of, optional_json, text_of, Fields, Json, JsonView, NumberView};
use crate::llm::LlmConfigView;
use crate::options::{
    chat_message, config_options, listed_models_are_offered, merged_models,
    messages_hold_what_was_said, options_tell_the_state_and_the_choices,
};
use crate::protocol::{valid_mode, AcpError, AcpErrorView, JsonRpcRequest, SessionView};
use crate::text::{optional_text, same, texts};
use crate::turn::{
    all_updates, handle_session_prompt, lemma_all_updates, optional_turn, prompt_effect,
    prompt_took_effect, prompted, prompts_begin_turns, turn_effect, turns_only_extend_their_session,
    user_text_of, PromptEffect, PromptTurn, TurnEventView, TurnView,
};

verus! {

/// The model of a [`JsonRpcRequest`].
#[verifier::ext_equal]
pub struct RequestView {
    pub id: Option<JsonView>,
    pub method: Seq<char>,
    pub params: JsonView,
}

impl View for JsonRpcRequest {
    type V = RequestView;

    /// A request without parameters has an empty object for them.
    open spec fn view(&self) -> RequestView {
        RequestView {
            id: optional_json(self.id),
            method: self.method@,
            params: match self.params {
                Some(params) => params@,
                None => JsonView::Object(Map::empty()),
            },
        }
    }
}

/// An effect with which no turn begins.
pub open spec fn settled(effect: Effect) -> PromptEffect {
    PromptEffect { turn: None, sessions: effect.sessions, sent: effect.sent }
}

/// What a request leads to. A session or a turn that begins gets the given id. `session/cancel`
/// is never answered, and of the rest only a request with an id is handled.
pub open spec fn request_effect(
    config: LlmConfigView,
    listed: Seq<Seq<char>>,
    sessions: Sessions,
    request: RequestView,
    fresh_id: Seq<char>,
    system_prompt: Option<Seq<char>>,
    now: nat,
) -> PromptEffect {
    let params = request.params;
    if request.method == "session/cancel"@ {
        PromptEffect {
            turn: None,
            sessions: after_cancel(sessions, params),
            sent: Seq::empty(),
        }
    } else {
        match request.id {
            None => PromptEffect { turn: None, sessions, sent: Seq::empty() },
            Some(id) => if request.method == "initialize"@ {
                PromptEffect {
                    turn: None,
                    sessions,
                    sent: seq![response_message(id, introduction(config, params))],
                }
            } else if request.method == "session/new"@ {
                settled(
                    new_session_effect(
                        config,
                        listed,
                        sessions,
                        id,
                        params,
                        fresh_id,
                        system_prompt,
                        now,
                    ),
                )
            } else if request.method == "session/set_config_option"@ {
                settled(set_option_effect(config, listed, sessions, id, params))
            } else if request.method == "session/set_mode"@ {
                settled(set_mode_effect(sessions, id, params))
            } else if request.method == "session/prompt"@ {
                prompt_effect(config, sessions, id, params, fresh_id, now)
            } else if request.method == "session/end"@ || request.method == "session/close"@ {
                settled(end_effect(sessions, id, params))
            } else {
                PromptEffect {
                    turn: None,
                    sessions,
                    sent: seq![
                        failure_message(
                            id,
                            AcpErrorView::MethodNotFound { method: request.method },
                        ),
                    ],
                }
            },
        }
    }
}

/// There are random UUIDs.
proof fn lemma_some_uuid() -> (s: Seq<char>)
    ensures
        is_random_uuid(s),
{
    Seq::new(
        36,
        |i: int|
            if i == 8 || i == 13 || i == 18 || i == 23 {
                '-'
            } else if i == 14 {
                '4'
            } else {
                '8'
            },
    )
}

/// Handles a request: answers it, or begins a turn at whose end it will be answered. A session
/// or a turn that begins gets a fresh id.
pub fn handle_request(
    bridge: &mut Bridge,
    request: JsonRpcRequest,
    system_prompt: Option<String>,
    now: u128,
    out: &mut Outbox,
) -> (r: Option<PromptTurn>)
    requires
        old(bridge).wf(),
    ensures
        exists|fresh_id: Seq<char>|
            is_random_uuid(fresh_id) && #[trigger] prompt_took_effect(
                *old(bridge),
                *final(bridge),
                old(out)@,
                final(out)@,
                optional_turn(r),
                request_effect(
                    old(bridge).config@,
                    texts(old(bridge).models@),
                    old(bridge).sessions@,
                    request@,
                    fresh_id,
                    optional_text(system_prompt),
                    now as nat,
                ),
            ),
        request@.id is Some && request@.method == "session/new"@ && has_room(
            old(bridge).config@,
            old(bridge).sessions@,
        ) ==> plain_in_ascii(requested_path(request@.params)),
{
    proof {
        reveal_strlit("session/new");
        reveal_strlit("session/cancel");
        reveal_strlit("initialize");
        assert("session/new"@.len() == 11);
        assert("session/cancel"@.len() == 14);
        assert("initialize"@.len() == 10);
    }
    let ghost view = request@;
    let ghost any_id = lemma_some_uuid();
    let ghost effect = request_effect(
        bridge.config@,
        texts(bridge.models@),
        bridge.sessions@,
        view,
        any_id,
        optional_text(system_prompt),
        now as nat,
    );
    let params: Json = match request.params {
        Some(params) => params,
        None => Json::Object(Fields::new()),
    };
    let method: &str = request.method.as_str();
    if same(method, "session/cancel") {
        handle_session_cancel(bridge, &params);
        assert(out@ == old(out)@ + effect.sent);
        assert(prompt_took_effect(*old(bridge), *bridge, old(out)@, out@, None, effect));
        return None;
    }
    let id: Json = match request.id {
        Some(id) => id,
        None => {
            assert(out@ == old(out)@ + effect.sent);
            assert(prompt_took_effect(*old(bridge), *bridge, old(out)@, out@, None, effect));
            return None;
        },
    };
    let ghost request_id = id@;
    let ghost set_prompt = optional_text(system_prompt);
    if same(method, "initialize") {
        handle_initialize(&bridge.config, &id, &params, out);
    } else if same(method, "session/new") {
        handle_session_new(bridge, &id, &params, system_prompt, now, out);
        proof {
            let fresh_id = choose|fresh_id: Seq<char>|
                is_random_uuid(fresh_id) && #[trigger] took_effect(
                    *old(bridge),
                    *bridge,
                    old(out)@,
                    out@,
                    new_session_effect(
                        old(bridge).config@,
                        texts(old(bridge).models@),
                        old(bridge).sessions@,
                        request_id,
                        view.params,
                        fresh_id,
                        set_prompt,
                        now as nat,
                    ),
                );
            assert(prompt_took_effect(
                *old(bridge),
                *bridge,
                old(out)@,
                out@,
                None,
                request_effect(
                    old(bridge).config@,
                    texts(old(bridge).models@),
                    old(bridge).sessions@,
                    view,
                    fresh_id,
                    set_prompt,
                    now as nat,
                ),
            ));
        }
        return None;
    } else if same(method, "session/set_config_option") {
        handle_session_set_config_option(bridge, &id, &params, out);
    } else if same(method, "session/set_mode") {
        handle_session_set_mode(bridge, &id, &params, out);
    } else if same(method, "session/prompt") {
        let turn: Option<PromptTurn> = handle_session_prompt(bridge, &id, &params, now, out);
        proof {
            let fresh_id = choose|fresh_id: Seq<char>|
                is_random_uuid(fresh_id) && #[trigger] prompt_took_effect(
                    *old(bridge),
                    *bridge,
                    old(out)@,
                    out@,
                    optional_turn(turn),
                    prompt_effect(
                        old(bridge).config@,
                        old(bridge).sessions@,
                        request_id,
                        view.params,
                        fresh_id,
                        now as nat,
                    ),
                );
            assert(prompt_took_effect(
                *old(bridge),
                *bridge,
                old(out)@,
                out@,
                optional_turn(turn),
                request_effect(
                    old(bridge).config@,
                    texts(old(bridge).models@),
                    old(bridge).sessions@,
                    view,
                    fresh_id,
                    set_prompt,
                    now as nat,
                ),
            ));
        }
        return turn;
    } else if same(method, "session/end") || same(method, "session/close") {
        handle_session_end(bridge, &id, &params, out);
    } else {
        send_failure(out, &id, &AcpError::MethodNotFound { method: method.to_owned() });
    }
    assert(out@ == old(out)@ + effect.sent);
    assert(prompt_took_effect(*old(bridge), *bridge, old(out)@, out@, None, effect));
    None
}

/// Every request with an id is answered once: at once, or at the end of the turn that it begins,
/// before which the client gets updates of the session that the request names. `session/cancel`
/// and whatever has no id are never answered.
pub proof fn every_request_is_answered_once(
    config: LlmConfigView,
    listed: Seq<Seq<char>>,
    sessions: Sessions,
    request: RequestView,
    fresh_id: Seq<char>,
    system_prompt: Option<Seq<char>>,
    now: nat,
)
    ensures
        ({
            let effect = request_effect(
                config,
                listed,
                sessions,
                request,
                fresh_id,
                system_prompt,
                now,
            );
            if request.method == "session/cancel"@ || request.id is None {
                effect.turn is None && effect.sent.len() == 0
            } else {
                match effect.turn {
                    None => effect.sent.len() == 1 && answers(effect.sent[0], request.id->0),
                    Some(turn) => turn.id == request.id->0 && request.params.text_at("sessionId"@)
                        == Some(turn.session_id) && all_updates(effect.sent, turn.session_id),
                }
            }
        }),
{
    if let Some(sid) = request.params.text_at("sessionId"@) {
        lemma_all_updates(sid);
    }
    lemma_all_answers();
}

/// Responses and errors answer the request whose id they carry.
proof fn lemma_all_answers()
    ensures
        forall|id: JsonView, result: JsonView|
            answers(#[trigger] response_message(id, result), id) && response_message(
                id,
                result,
            ).get("error"@) is None,
        forall|id: JsonView, code: int, message: Seq<char>|
            answers(#[trigger] error_message(id, code, message), id),
{
    assert forall|id: JsonView, result: JsonView|
        answers(#[trigger] response_message(id, result), id) && response_message(id, result).get(
            "error"@,
        ) is None by {
        responses_answer_their_request(id, result, 0, Seq::empty());
    }
    assert forall|id: JsonView, code: int, message: Seq<char>|
        answers(#[trigger] error_message(id, code, message), id) by {
        responses_answer_their_request(id, JsonView::Null, code, message);
    }
}

/// A request that is answered with an error changes nothing.
pub proof fn refused_requests_change_nothing(
    config: LlmConfigView,
    listed: Seq<Seq<char>>,
    sessions: Sessions,
    request: RequestView,
    fresh_id: Seq<char>,
    system_prompt: Option<Seq<char>>,
    now: nat,
)
    requires
        ({
            let effect = request_effect(
                config,
                listed,
                sessions,
                request,
                fresh_id,
                system_prompt,
                now,
            );
            exists|i: int|
                0 <= i < effect.sent.len() && (#[trigger] effect.sent[i]).get("error"@) is Some
        }),
    ensures
        request_effect(config, listed, sessions, request, fresh_id, system_prompt, now).sessions
            == sessions,
        request_effect(config, listed, sessions, request, fresh_id, system_prompt, now).turn is None,
{
    lemma_all_answers();
    lemma_no_update_is_an_error();
}

/// No update of a session is an error.
proof fn lemma_no_update_is_an_error()
    ensures
        forall|session_id: Seq<char>, update: JsonView|
            (#[trigger] session_update_message(session_id, update)).get("error"@) is None,
{
    reveal_strlit("error");
    reveal_strlit("jsonrpc");
    reveal_strlit("method");
    reveal_strlit("params");
    assert("error"@.len() == 5);
    assert("jsonrpc"@.len() == 7);
    assert("method"@.len() == 6);
    assert("params"@.len() == 6);
}

/// Whether every session is in one of the modes.
pub open spec fn modes_are_valid(sessions: Sessions) -> bool {
    forall|sid: Seq<char>| #[trigger] sessions.contains_key(sid) ==> valid_mode(sessions[sid].mode)
}

/// Every session is in one of the modes at all times: no request, no step of a turn and no
/// eviction brings it into another.
pub proof fn modes_stay_valid(
    config: LlmConfigView,
    listed: Seq<Seq<char>>,
    sessions: Sessions,
    request: RequestView,
    fresh_id: Seq<char>,
    system_prompt: Option<Seq<char>>,
    now: nat,
    turn: TurnView,
    event: TurnEventView,
    timeout_secs: nat,
)
    requires
        modes_are_valid(sessions),
    ensures
        modes_are_valid(
            request_effect(
                config,
                listed,
                sessions,
                request,
                fresh_id,
                system_prompt,
                now,
            ).sessions,
        ),
        modes_are_valid(
            turn_effect(config.ollama_native, sessions, turn, event, fresh_id).sessions,
        ),
        modes_are_valid(after_eviction(sessions, timeout_secs, now)),
{
}

/// Whether there are no more sessions than the settings allow.
pub open spec fn within_session_limit(config: LlmConfigView, sessions: Sessions) -> bool {
    sessions.dom().finite() && (config.max_sessions > 0 ==> sessions.len() <= config.max_sessions)
}

/// There are never more sessions than the settings allow: no request, no step of a turn and no
/// eviction brings their number above the limit.
pub proof fn the_session_limit_holds(
    config: LlmConfigView,
    listed: Seq<Seq<char>>,
    sessions: Sessions,
    request: RequestView,
    fresh_id: Seq<char>,
    system_prompt: Option<Seq<char>>,
    now: nat,
    turn: TurnView,
    event: TurnEventView,
    timeout_secs: nat,
)
    requires
        within_session_limit(config, sessions),
    ensures
        within_session_limit(
            config,
            request_effect(
                config,
                listed,
                sessions,
                request,
                fresh_id,
                system_prompt,
                now,
            ).sessions,
        ),
        within_session_limit(
            config,
            turn_effect(config.ollama_native, sessions, turn, event, fresh_id).sessions,
        ),
        within_session_limit(config, after_eviction(sessions, timeout_secs, now)),
{
    turns_only_extend_their_session(config.ollama_native, sessions, turn, event, fresh_id);
    let fresh = after_eviction(sessions, timeout_secs, now);
    assert(fresh.dom().subset_of(sessions.dom()));
    vstd::set_lib::lemma_len_subset(fresh.dom(), sessions.dom());
    assert forall|sid: Seq<char>, s: SessionView| sessions.contains_key(sid) implies (
    #[trigger] sessions.insert(sid, s)).dom() == sessions.dom() by {
        assert(sessions.insert(sid, s).dom() =~= sessions.dom());
    }
}

/// A bridge without sessions, as every bridge begins, is within the limit, and no session is in
/// another mode than it should be.
pub proof fn bridges_begin_in_order(config: LlmConfigView)
    ensures
        modes_are_valid(Map::empty()),
        within_session_limit(config, Map::empty()),
{
}

/// Where as many sessions are open as the settings allow, no other is opened, and the client is
/// told the limit.
pub proof fn full_bridges_open_no_sessions(
    config: LlmConfigView,
    listed: Seq<Seq<char>>,
    sessions: Sessions,
    id: JsonView,
    params: JsonView,
    session_id: Seq<char>,
    system_prompt: Option<Seq<char>>,
    now: nat,
)
    requires
        config.max_sessions > 0,
        sessions.len() >= config.max_sessions,
    ensures
        new_session_effect(
            config,
            listed,
            sessions,
            id,
            params,
            session_id,
            system_prompt,
            now,
        ) == refusal(
            sessions,
            id,
            AcpErrorView::SessionLimitReached { max: config.max_sessions },
        ),
{
}

/// Ending a session makes room for another.
pub proof fn ending_makes_room(
    config: LlmConfigView,
    sessions: Sessions,
    id: JsonView,
    params: JsonView,
)
    requires
        within_session_limit(config, sessions),
        params.text_at("sessionId"@) is Some,
        sessions.contains_key(params.text_at("sessionId"@)->0),
    ensures
        has_room(config, end_effect(sessions, id, params).sessions),
{
    let sid = params.text_at("sessionId"@)->0;
    assert(sessions.remove(sid).dom() == sessions.dom().remove(sid));
}

/// A request touches no session but the one that it names or opens.
pub proof fn other_sessions_are_left_alone(
    config: LlmConfigView,
    listed: Seq<Seq<char>>,
    sessions: Sessions,
    request: RequestView,
    fresh_id: Seq<char>,
    system_prompt: Option<Seq<char>>,
    now: nat,
    other: Seq<char>,
)
    requires
        other != fresh_id,
        request.params.text_at("sessionId"@) != Some(other),
    ensures
        ({
            let after = request_effect(
                config,
                listed,
                sessions,
                request,
                fresh_id,
                system_prompt,
                now,
            ).sessions;
            &&& after.contains_key(other) <==> sessions.contains_key(other)
            &&& sessions.contains_key(other) ==> after[other] == sessions[other]
        }),
{
}

/// A session keeps its system prompt for as long as it is open: whatever is requested, and
/// whatever happens in a turn, the first message of its history stays.
pub proof fn system_prompts_stay(
    config: LlmConfigView,
    listed: Seq<Seq<char>>,
    sessions: Sessions,
    request: RequestView,
    fresh_id: Seq<char>,
    system_prompt: Option<Seq<char>>,
    now: nat,
    turn: TurnView,
    event: TurnEventView,
    sid: Seq<char>,
)
    requires
        sessions.contains_key(sid),
        sessions[sid].messages.len() > 0,
        sid != fresh_id,
    ensures
        ({
            let after = request_effect(
                config,
                listed,
                sessions,
                request,
                fresh_id,
                system_prompt,
                now,
            ).sessions;
            after.contains_key(sid) ==> after[sid].messages.len() > 0 && after[sid].messages[0]
                == sessions[sid].messages[0]
        }),
        ({
            let after = turn_effect(
                config.ollama_native,
                sessions,
                turn,
                event,
                fresh_id,
            ).sessions;
            after[sid].messages.len() > 0 && after[sid].messages[0] == sessions[sid].messages[0]
        }),
{
}

/// What is asked of a session that is not open is refused, and the client is told so.
pub proof fn unknown_sessions_are_refused(
    config: LlmConfigView,
    listed: Seq<Seq<char>>,
    sessions: Sessions,
    id: JsonView,
    params: JsonView,
    fresh_id: Seq<char>,
    now: nat,
)
    requires
        params.text_at("sessionId"@) is Some,
        !sessions.contains_key(params.text_at("sessionId"@)->0),
    ensures
        ({
            let sid = params.text_at("sessionId"@)->0;
            let told = seq![failure_message(id, AcpErrorView::UnknownSession { session_id: sid })];
            let value = params.text_at("value"@);
            &&& end_effect(sessions, id, params).sent == told
            &&& prompt_effect(config, sessions, id, params, fresh_id, now).sent == told
            &&& params.text_at("modeId"@) is Some && valid_mode(params.text_at("modeId"@)->0)
                ==> set_mode_effect(sessions, id, params).sent == told
            &&& params.text_at("configId"@) == Some("mode"@) && value is Some && valid_mode(
                value->0,
            ) ==> set_option_effect(config, listed, sessions, id, params).sent == told
            &&& params.text_at("configId"@) == Some("model"@) && value is Some && merged_models(
                config.model,
                listed,
            ).contains(value->0) ==> set_option_effect(config, listed, sessions, id, params).sent
                == told
        }),
{
    reveal_strlit("mode");
    reveal_strlit("model");
    assert("mode"@.len() == 4);
    assert("model"@.len() == 5);
}

/// A request about a session that names none is refused as incomplete.
pub proof fn nameless_requests_are_refused(
    config: LlmConfigView,
    listed: Seq<Seq<char>>,
    sessions: Sessions,
    id: JsonView,
    params: JsonView,
    fresh_id: Seq<char>,
    now: nat,
)
    requires
        params.text_at("sessionId"@) is None,
    ensures
        ({
            let told = seq![
                failure_message(id, AcpErrorView::MissingParam { field: "sessionId"@ }),
            ];
            &&& end_effect(sessions, id, params).sent == told
            &&& prompt_effect(config, sessions, id, params, fresh_id, now).sent == told
            &&& set_mode_effect(sessions, id, params).sent == told
            &&& set_option_effect(config, listed, sessions, id, params).sent == told
        }),
{
}

/// A session that was ended is gone: ending it once more is refused.
pub proof fn sessions_end_once(
    sessions: Sessions,
    first_id: JsonView,
    second_id: JsonView,
    params: JsonView,
)
    requires
        params.text_at("sessionId"@) is Some,
    ensures
        ({
            let sid = params.text_at("sessionId"@)->0;
            let ended = end_effect(sessions, first_id, params).sessions;
            &&& !ended.contains_key(sid)
            &&& end_effect(ended, second_id, params) == refusal(
                ended,
                second_id,
                AcpErrorView::UnknownSession { session_id: sid },
            )
        }),
{
}

/// A session that was opened can be worked with: it is there under the id that the client is
/// told, it is in agent mode with the configured model, and its history is the system prompt.
pub proof fn new_sessions_are_ready(
    config: LlmConfigView,
    listed: Seq<Seq<char>>,
    sessions: Sessions,
    id: JsonView,
    params: JsonView,
    session_id: Seq<char>,
    system_prompt: Option<Seq<char>>,
    now: nat,
)
    requires
        config.max_sessions == 0 || sessions.len() < config.max_sessions,
    ensures
        ({
            let effect = new_session_effect(
                config,
                listed,
                sessions,
                id,
                params,
                session_id,
                system_prompt,
                now,
            );
            let cwd = requested_cwd(params);
            let session = effect.sessions[session_id];
            &&& effect.sessions.contains_key(session_id)
            &&& text_of(field_of(effect.sent[0].get("result"@), "sessionId"@)) == Some(session_id)
            &&& session.mode == "agent"@
            &&& session.model == config.model
            &&& !session.cancelled
            &&& session.working_dir == cwd
            &&& session.messages == seq![
                chat_message("system"@, system_prompt_for(system_prompt, cwd)),
            ]
        }),
{
    let result = new_session_effect(
        config,
        listed,
        sessions,
        id,
        params,
        session_id,
        system_prompt,
        now,
    ).sent[0];
    reveal_strlit("result");
    reveal_strlit("jsonrpc");
    reveal_strlit("id");
    reveal_strlit("sessionId");
    reveal_strlit("configOptions");
    reveal_strlit("modes");
    assert("result"@.len() == 6);
    assert("sessionId"@.len() == 9);
    assert("configOptions"@.len() == 13);
    assert("modes"@.len() == 5);
    assert(result.get("result"@) is Some);
}

/// The configured model and every model that the backend listed can be chosen, in any open
/// session, and no other.
pub proof fn offered_models_can_be_chosen(
    config: LlmConfigView,
    listed: Seq<Seq<char>>,
    sessions: Sessions,
    id: JsonView,
    params: JsonView,
    sid: Seq<char>,
    model: Seq<char>,
)
    requires
        params.text_at("sessionId"@) == Some(sid),
        params.text_at("configId"@) == Some("model"@),
        params.text_at("value"@) == Some(model),
        sessions.contains_key(sid),
    ensures
        ({
            let after = set_option_effect(config, listed, sessions, id, params).sessions;
            if model == config.model || listed.contains(model) {
                after == sessions.insert(sid, SessionView { model, ..sessions[sid] })
            } else {
                after == sessions
            }
        }),
{
    listed_models_are_offered(config.model, listed);
    reveal_strlit("mode");
    reveal_strlit("model");
    assert("mode"@.len() == 4);
    assert("model"@.len() == 5);
}

/// Eviction closes the sessions that have been idle for the timeout or longer, leaves the others
/// as they are, and closes none where the timeout is 0.
pub proof fn only_idle_sessions_are_closed(
    sessions: Sessions,
    timeout_secs: nat,
    now: nat,
    sid: Seq<char>,
)
    requires
        sessions.contains_key(sid),
    ensures
        ({
            let after = after_eviction(sessions, timeout_secs, now);
            &&& after.contains_key(sid) <==> (timeout_secs == 0 || now - sessions[sid].last_active
                < timeout_secs * 1_000_000_000)
            &&& after.contains_key(sid) ==> after[sid] == sessions[sid]
        }),
{
}

/// A prompt keeps a session open: until the timeout has passed anew, eviction leaves it.
pub proof fn prompts_keep_sessions_open(
    config: LlmConfigView,
    sessions: Sessions,
    id: JsonView,
    params: JsonView,
    llm_tool_id: Seq<char>,
    now: nat,
    later: nat,
    timeout_secs: nat,
)
    requires
        params.text_at("sessionId"@) is Some,
        sessions.contains_key(params.text_at("sessionId"@)->0),
        now <= later < now + timeout_secs * 1_000_000_000,
    ensures
        after_eviction(
            prompt_effect(config, sessions, id, params, llm_tool_id, now).sessions,
            timeout_secs,
            later,
        ).contains_key(params.text_at("sessionId"@)->0),
{
}

/// The methods that the bridge knows.
pub open spec fn is_known(method: Seq<char>) -> bool {
    method == "initialize"@ || method == "session/new"@ || method == "session/set_config_option"@
        || method == "session/set_mode"@ || method == "session/prompt"@ || method == "session/end"@
        || method == "session/close"@ || method == "session/cancel"@
}

/// No two methods have the same name.
proof fn lemma_methods_differ()
    ensures
        "session/new"@ != "initialize"@,
        "session/new"@ != "session/cancel"@,
        "session/set_config_option"@ != "initialize"@,
        "session/set_config_option"@ != "session/cancel"@,
        "session/set_config_option"@ != "session/new"@,
        "session/set_mode"@ != "initialize"@,
        "session/set_mode"@ != "session/cancel"@,
        "session/set_mode"@ != "session/new"@,
        "session/set_mode"@ != "session/set_config_option"@,
        "session/prompt"@ != "initialize"@,
        "session/prompt"@ != "session/cancel"@,
        "session/prompt"@ != "session/new"@,
        "session/prompt"@ != "session/set_config_option"@,
        "session/prompt"@ != "session/set_mode"@,
        "session/end"@ != "initialize"@,
        "session/end"@ != "session/cancel"@,
        "session/end"@ != "session/new"@,
        "session/end"@ != "session/set_config_option"@,
        "session/end"@ != "session/set_mode"@,
        "session/end"@ != "session/prompt"@,
        "session/close"@ != "initialize"@,
        "session/close"@ != "session/cancel"@,
        "session/close"@ != "session/new"@,
        "session/close"@ != "session/set_config_option"@,
        "session/close"@ != "session/set_mode"@,
        "session/close"@ != "session/prompt"@,
        "initialize"@ != "session/cancel"@,
{
    reveal_strlit("initialize");
    reveal_strlit("session/new");
    reveal_strlit("session/set_config_option");
    reveal_strlit("session/set_mode");
    reveal_strlit("session/prompt");
    reveal_strlit("session/end");
    reveal_strlit("session/close");
    reveal_strlit("session/cancel");
    assert("initialize"@.len() == 10);
    assert("session/new"@.len() == 11);
    assert("session/set_config_option"@.len() == 25);
    assert("session/set_mode"@.len() == 16);
    assert("session/prompt"@.len() == 14);
    assert("session/end"@.len() == 11);
    assert("session/close"@.len() == 13);
    assert("session/cancel"@.len() == 14);
    assert("session/new"@[8] == 'n');
    assert("session/end"@[8] == 'e');
    assert("session/prompt"@[8] == 'p');
    assert("session/cancel"@[8] == 'c');
}

/// The code of an error message is the one that it was made with.
proof fn lemma_error_codes()
    ensures
        forall|id: JsonView, code: int, text: Seq<char>|
            field_of((#[trigger] error_message(id, code, text)).get("error"@), "code"@) == Some(
                JsonView::Number(NumberView::Integer(code)),
            ) && text_of(field_of(error_message(id, code, text).get("error"@), "message"@)) == Some(
                text,
            ),
{
    assert forall|id: JsonView, code: int, text: Seq<char>|
        field_of((#[trigger] error_message(id, code, text)).get("error"@), "code"@) == Some(
            JsonView::Number(NumberView::Integer(code)),
        ) && text_of(field_of(error_message(id, code, text).get("error"@), "message"@)) == Some(
            text,
        ) by {
        messages_hold_what_they_tell(id, JsonView::Null, code, text, Seq::empty(), JsonView::Null);
    }
}

/// Whether a message reports an error with the given code.
pub open spec fn reports(message: JsonView, code: int) -> bool {
    field_of(message.get("error"@), "code"@) == Some(JsonView::Number(NumberView::Integer(code)))
}

/// A method that the bridge knows is never said not to be found. Of any other, the client is told
/// by name that there is none, and nothing changes.
pub proof fn just_unknown_methods_are_not_found(
    config: LlmConfigView,
    listed: Seq<Seq<char>>,
    sessions: Sessions,
    request: RequestView,
    fresh_id: Seq<char>,
    system_prompt: Option<Seq<char>>,
    now: nat,
)
    requires
        request.id is Some,
    ensures
        ({
            let effect = request_effect(
                config,
                listed,
                sessions,
                request,
                fresh_id,
                system_prompt,
                now,
            );
            &&& is_known(request.method) ==> forall|i: int|
                0 <= i < effect.sent.len() ==> !reports(#[trigger] effect.sent[i], -32601)
            &&& !is_known(request.method) ==> {
                &&& effect.sessions == sessions
                &&& effect.turn is None
                &&& effect.sent.len() == 1
                &&& answers(effect.sent[0], request.id->0)
                &&& reports(effect.sent[0], -32601)
                &&& text_of(field_of(effect.sent[0].get("error"@), "message"@)) == Some(
                    "Method not found: "@ + request.method,
                )
            }
        }),
{
    lemma_methods_differ();
    lemma_error_codes();
    lemma_all_answers();
    lemma_no_update_is_an_error();
}

/// Whether a request was granted: it is answered once, with a result and no error.
pub open spec fn granted(effect: PromptEffect, id: JsonView) -> bool {
    &&& effect.turn is None
    &&& effect.sent.len() == 1
    &&& answers(effect.sent[0], id)
    &&& effect.sent[0].get("result"@) is Some
    &&& effect.sent[0].get("error"@) is None
}

/// A session that is open takes on the model that `session/set_config_option` names, if it is on
/// offer, and nothing else of it changes. The answer tells the mode and the model as they are then,
/// and all models on offer. A model that is not on offer is refused.
pub proof fn models_are_switched(
    config: LlmConfigView,
    listed: Seq<Seq<char>>,
    sessions: Sessions,
    request: RequestView,
    fresh_id: Seq<char>,
    system_prompt: Option<Seq<char>>,
    now: nat,
    sid: Seq<char>,
    model: Seq<char>,
)
    requires
        request.id is Some,
        request.method == "session/set_config_option"@,
        request.params.text_at("sessionId"@) == Some(sid),
        request.params.text_at("configId"@) == Some("model"@),
        request.params.text_at("value"@) == Some(model),
        sessions.contains_key(sid),
    ensures
        ({
            let effect = request_effect(
                config,
                listed,
                sessions,
                request,
                fresh_id,
                system_prompt,
                now,
            );
            let options = items_of(
                field_of(effect.sent[0].get("result"@), "configOptions"@),
            );
            if model == config.model || listed.contains(model) {
                &&& granted(effect, request.id->0)
                &&& effect.sessions == sessions.insert(sid, effect.sessions[sid])
                &&& effect.sessions[sid] == (SessionView { model, ..sessions[sid] })
                &&& options is Some && tells_state(
                    options->0,
                    sessions[sid].mode,
                    model,
                    config.model,
                    listed,
                )
            } else {
                &&& effect.sessions == sessions
                &&& effect.sent.len() == 1 && reports(effect.sent[0], -32602)
                &&& text_of(field_of(effect.sent[0].get("error"@), "message"@)) == Some(
                    "Model value is not in the available models list"@,
                )
            }
        }),
{
    lemma_methods_differ();
    lemma_error_codes();
    lemma_all_answers();
    lemma_names_of_options();
    listed_models_are_offered(config.model, listed);
    lemma_options_answer(request.id->0, sessions[sid].mode, model, config.model, listed);
}

/// Whether a list of options tells the mode, the model, and the models on offer: the configured one
/// and all that the backend listed.
pub open spec fn tells_state(
    options: Seq<JsonView>,
    mode: Seq<char>,
    model: Seq<char>,
    configured: Seq<char>,
    listed: Seq<Seq<char>>,
) -> bool {
    let choices = items_of(options[1].get("options"@));
    &&& options.len() == 2
    &&& options[0].text_at("id"@) == Some("mode"@)
    &&& options[0].text_at("currentValue"@) == Some(mode)
    &&& options[1].text_at("id"@) == Some("model"@)
    &&& options[1].text_at("currentValue"@) == Some(model)
    &&& choices is Some
    &&& forall|m: Seq<char>|
        (exists|i: int|
            0 <= i < choices->0.len() && (#[trigger] choices->0[i]).text_at("value"@) == Some(m))
            <==> m == configured || #[trigger] listed.contains(m)
}

/// The names of options and parameters differ.
proof fn lemma_names_of_options()
    ensures
        "mode"@ != "model"@,
        "result"@ != "id"@,
{
    reveal_strlit("mode");
    reveal_strlit("model");
    reveal_strlit("result");
    reveal_strlit("id");
    assert("mode"@.len() == 4);
    assert("model"@.len() == 5);
    assert("result"@.len() == 6);
    assert("id"@.len() == 2);
}

/// What an answer with options tells.
proof fn lemma_options_answer(
    id: JsonView,
    mode: Seq<char>,
    model: Seq<char>,
    configured: Seq<char>,
    listed: Seq<Seq<char>>,
)
    ensures
        ({
            let options = config_options(mode, model, merged_models(configured, listed));
            let result = JsonView::Object(map!["configOptions"@ => JsonView::Array(options)]);
            let message = response_message(id, result);
            &&& message.get("result"@) == Some(result)
            &&& items_of(field_of(message.get("result"@), "configOptions"@)) == Some(options)
            &&& tells_state(options, mode, model, configured, listed)
        }),
{
    let models = merged_models(configured, listed);
    let options = config_options(mode, model, models);
    let result = JsonView::Object(map!["configOptions"@ => JsonView::Array(options)]);
    messages_hold_what_they_tell(id, result, 0, Seq::empty(), Seq::empty(), JsonView::Null);
    lemma_options_tell(mode, model, configured, listed);
}

/// Options tell the state.
proof fn lemma_options_tell(
    mode: Seq<char>,
    model: Seq<char>,
    configured: Seq<char>,
    listed: Seq<Seq<char>>,
)
    ensures
        tells_state(
            config_options(mode, model, merged_models(configured, listed)),
            mode,
            model,
            configured,
            listed,
        ),
{
    let models = merged_models(configured, listed);
    let options = config_options(mode, model, models);
    let choices = items_of(options[1].get("options"@))->0;
    options_tell_the_state_and_the_choices(mode, model, models);
    listed_models_are_offered(configured, listed);
    assert forall|m: Seq<char>|
        (exists|i: int|
            0 <= i < choices.len() && (#[trigger] choices[i]).text_at("value"@) == Some(m)) <==> m
            == configured || #[trigger] listed.contains(m) by {
        if exists|i: int|
            0 <= i < choices.len() && (#[trigger] choices[i]).text_at("value"@) == Some(m) {
            let i = choose|i: int|
                0 <= i < choices.len() && (#[trigger] choices[i]).text_at("value"@) == Some(m);
            assert(models[i] == m);
            assert(models.contains(m));
        }
        if m == configured || listed.contains(m) {
            assert(models.contains(m));
            let i = choose|i: int| 0 <= i < models.len() && models[i] == m;
            assert(choices[i].text_at("value"@) == Some(m));
        }
    }
}

/// A session that is open takes on the mode that `session/set_config_option` or `session/set_mode`
/// names, if it is one, and nothing else of it changes. What is no mode is refused.
pub proof fn modes_are_switched(
    config: LlmConfigView,
    listed: Seq<Seq<char>>,
    sessions: Sessions,
    request: RequestView,
    fresh_id: Seq<char>,
    system_prompt: Option<Seq<char>>,
    now: nat,
    sid: Seq<char>,
    mode: Seq<char>,
)
    requires
        request.id is Some,
        request.params.text_at("sessionId"@) == Some(sid),
        (request.method == "session/set_config_option"@ && request.params.text_at("configId"@)
            == Some("mode"@) && request.params.text_at("value"@) == Some(mode)) || (request.method
            == "session/set_mode"@ && request.params.text_at("modeId"@) == Some(mode)),
        sessions.contains_key(sid),
    ensures
        ({
            let effect = request_effect(
                config,
                listed,
                sessions,
                request,
                fresh_id,
                system_prompt,
                now,
            );
            let result = effect.sent[0].get("result"@);
            let options = items_of(field_of(result, "configOptions"@));
            if mode == "ask"@ || mode == "plan"@ || mode == "agent"@ {
                &&& granted(effect, request.id->0)
                &&& effect.sessions == sessions.insert(sid, effect.sessions[sid])
                &&& effect.sessions[sid] == (SessionView { mode, ..sessions[sid] })
                &&& request.method == "session/set_mode"@ ==> result == Some(
                    JsonView::Object(Map::empty()),
                )
                &&& request.method == "session/set_config_option"@ ==> options is Some
                    && tells_state(
                    options->0,
                    mode,
                    sessions[sid].model,
                    config.model,
                    listed,
                )
            } else {
                &&& effect.sessions == sessions
                &&& effect.sent.len() == 1 && reports(effect.sent[0], -32602)
                &&& text_of(field_of(effect.sent[0].get("error"@), "message"@)) == Some(
                    if request.method == "session/set_mode"@ {
                        "Invalid modeId (expected ask, plan, or agent)"@
                    } else {
                        "Invalid mode value (expected ask, plan, or agent)"@
                    },
                )
            }
        }),
{
    lemma_methods_differ();
    lemma_error_codes();
    lemma_all_answers();
    lemma_names_of_options();
    lemma_options_answer(request.id->0, mode, sessions[sid].model, config.model, listed);
    messages_hold_what_they_tell(
        request.id->0,
        JsonView::Object(Map::empty()),
        0,
        Seq::empty(),
        Seq::empty(),
        JsonView::Null,
    );
}

/// Any other option is refused by name.
pub proof fn other_options_are_refused(
    config: LlmConfigView,
    listed: Seq<Seq<char>>,
    sessions: Sessions,
    request: RequestView,
    fresh_id: Seq<char>,
    system_prompt: Option<Seq<char>>,
    now: nat,
    option: Seq<char>,
)
    requires
        request.id is Some,
        request.method == "session/set_config_option"@,
        request.params.text_at("sessionId"@) is Some,
        request.params.text_at("configId"@) == Some(option),
        request.params.text_at("value"@) is Some,
        option != "mode"@,
        option != "model"@,
    ensures
        ({
            let effect = request_effect(
                config,
                listed,
                sessions,
                request,
                fresh_id,
                system_prompt,
                now,
            );
            &&& effect.sessions == sessions
            &&& effect.sent.len() == 1
            &&& reports(effect.sent[0], -32602)
            &&& text_of(field_of(effect.sent[0].get("error"@), "message"@)) == Some(
                "Unknown config option: "@ + option,
            )
        }),
{
    lemma_methods_differ();
    lemma_error_codes();
}

/// A session that is open is closed by `session/end` and by `session/close`, and the client is told
/// that it ended. One that is not open is refused by name.
pub proof fn sessions_are_ended(
    config: LlmConfigView,
    listed: Seq<Seq<char>>,
    sessions: Sessions,
    request: RequestView,
    fresh_id: Seq<char>,
    system_prompt: Option<Seq<char>>,
    now: nat,
    sid: Seq<char>,
)
    requires
        request.id is Some,
        request.method == "session/end"@ || request.method == "session/close"@,
        request.params.text_at("sessionId"@) == Some(sid),
    ensures
        ({
            let effect = request_effect(
                config,
                listed,
                sessions,
                request,
                fresh_id,
                system_prompt,
                now,
            );
            &&& effect.sessions == sessions.remove(sid)
            &&& sessions.contains_key(sid) ==> granted(effect, request.id->0) && text_of(
                field_of(effect.sent[0].get("result"@), "status"@),
            ) == Some("ended"@)
            &&& !sessions.contains_key(sid) ==> effect.sent.len() == 1 && reports(
                effect.sent[0],
                -32001,
            ) && text_of(field_of(effect.sent[0].get("error"@), "message"@)) == Some(
                "Unknown session: "@ + sid,
            )
        }),
{
    lemma_methods_differ();
    lemma_error_codes();
    lemma_all_answers();
    messages_hold_what_they_tell(
        request.id->0,
        JsonView::Object(map!["status"@ => JsonView::Text("ended"@)]),
        0,
        Seq::empty(),
        Seq::empty(),
        JsonView::Null,
    );
    if !sessions.contains_key(sid) {
        assert(sessions.remove(sid) == sessions);
    }
}

/// Where there is room, `session/new` opens a session under the fresh id, tells the client the id,
/// the options and the mode, and leaves the others as they are. Where there is none, it opens none.
pub proof fn sessions_are_opened(
    config: LlmConfigView,
    listed: Seq<Seq<char>>,
    sessions: Sessions,
    request: RequestView,
    fresh_id: Seq<char>,
    system_prompt: Option<Seq<char>>,
    now: nat,
)
    requires
        request.id is Some,
        request.method == "session/new"@,
    ensures
        ({
            let effect = request_effect(
                config,
                listed,
                sessions,
                request,
                fresh_id,
                system_prompt,
                now,
            );
            let result = effect.sent[0].get("result"@);
            let options = items_of(field_of(result, "configOptions"@));
            let session = effect.sessions[fresh_id];
            let asked = request.params.text_at("cwd"@);
            let path = if asked is Some {
                asked->0
            } else {
                "/tmp"@
            };
            if config.max_sessions == 0 || sessions.len() < config.max_sessions {
                &&& granted(effect, request.id->0)
                &&& effect.sessions == sessions.insert(fresh_id, session)
                &&& text_of(field_of(result, "sessionId"@)) == Some(fresh_id)
                &&& options is Some && tells_state(
                    options->0,
                    "agent"@,
                    config.model,
                    config.model,
                    listed,
                )
                &&& text_of(field_of(field_of(result, "modes"@), "currentModeId"@)) == Some(
                    "agent"@,
                )
                &&& session.mode == "agent"@
                &&& session.model == config.model
                &&& session.last_active == now
                &&& !session.cancelled
                &&& session.working_dir == sanitized(path)
                &&& session.messages.len() == 1
                &&& session.messages[0].text_at("role"@) == Some("system"@)
                &&& system_prompt is Some ==> session.messages[0].text_at("content"@)
                    == system_prompt
                &&& system_prompt is None ==> session.messages[0].text_at("content"@) == Some(
                    "You are a helpful coding assistant. The user's working directory is: "@
                        + sanitized(path),
                )
            } else {
                &&& effect.sessions == sessions
                &&& effect.sent.len() == 1
                &&& reports(effect.sent[0], -32004)
            }
        }),
{
    lemma_methods_differ();
    lemma_error_codes();
    lemma_all_answers();
    let cwd = requested_cwd(request.params);
    messages_hold_what_was_said("system"@, system_prompt_for(system_prompt, cwd));
    lemma_options_tell("agent"@, config.model, config.model, listed);
    options_tell_the_state_and_the_choices(
        "agent"@,
        config.model,
        merged_models(config.model, listed),
    );
    let effect = request_effect(config, listed, sessions, request, fresh_id, system_prompt, now);
    if config.max_sessions == 0 || sessions.len() < config.max_sessions {
        let result = effect.sent[0]->Object_0["result"@];
        messages_hold_what_they_tell(
            request.id->0,
            result,
            0,
            Seq::empty(),
            Seq::empty(),
            JsonView::Null,
        );
        reveal_strlit("sessionId");
        reveal_strlit("configOptions");
        reveal_strlit("modes");
        reveal_strlit("result");
        reveal_strlit("jsonrpc");
        reveal_strlit("id");
        assert("result"@.len() == 6);
        assert("jsonrpc"@.len() == 7);
        assert("id"@.len() == 2);
        assert("sessionId"@.len() == 9);
        assert("configOptions"@.len() == 13);
        assert("modes"@.len() == 5);
    }
}

/// `session/prompt` in an open session begins a turn for the request in that session, with what the
/// user said at the end of its history.
pub proof fn prompts_are_taken_up(
    config: LlmConfigView,
    listed: Seq<Seq<char>>,
    sessions: Sessions,
    request: RequestView,
    fresh_id: Seq<char>,
    system_prompt: Option<Seq<char>>,
    now: nat,
    sid: Seq<char>,
)
    requires
        request.id is Some,
        request.method == "session/prompt"@,
        request.params.text_at("sessionId"@) == Some(sid),
        sessions.contains_key(sid),
    ensures
        ({
            let effect = request_effect(
                config,
                listed,
                sessions,
                request,
                fresh_id,
                system_prompt,
                now,
            );
            let turn = effect.turn->0;
            &&& effect.turn is Some
            &&& turn.id == request.id->0
            &&& turn.session_id == sid
            &&& turn.mode == sessions[sid].mode
            &&& turn.model == sessions[sid].model
            &&& turn.round == 0
            &&& effect.sessions == sessions.insert(
                sid,
                prompted(
                    sessions[sid],
                    user_text_of(request.params),
                    config.max_history_turns,
                    now,
                ),
            )
            &&& effect.sent.len() == 2
        }),
{
    lemma_methods_differ();
    prompts_begin_turns(config, sessions, request.id->0, request.params, fresh_id, now, sid);
}

/// `initialize` is answered with the bridge's introduction and changes nothing.
pub proof fn clients_are_introduced(
    config: LlmConfigView,
    listed: Seq<Seq<char>>,
    sessions: Sessions,
    request: RequestView,
    fresh_id: Seq<char>,
    system_prompt: Option<Seq<char>>,
    now: nat,
)
    requires
        request.id is Some,
        request.method == "initialize"@,
    ensures
        ({
            let effect = request_effect(
                config,
                listed,
                sessions,
                request,
                fresh_id,
                system_prompt,
                now,
            );
            let result = effect.sent[0].get("result"@);
            &&& granted(effect, request.id->0)
            &&& effect.sessions == sessions
            &&& result == Some(introduction(config, request.params))
            &&& text_of(field_of(field_of(result, "agentInfo"@), "name"@)) == Some(
                "acp-bridge ("@ + config.model + ")"@,
            )
        }),
{
    lemma_methods_differ();
    lemma_all_answers();
    the_bridge_tells_who_it_is(config, request.params, config, request.params);
    messages_hold_what_they_tell(
        request.id->0,
        introduction(config, request.params),
        0,
        Seq::empty(),
        Seq::empty(),
        JsonView::Null,
    );
}

/// `session/cancel` marks the session that it names, with or without an id, and changes nothing
/// else.
pub proof fn cancellations_are_heard(
    config: LlmConfigView,
    listed: Seq<Seq<char>>,
    sessions: Sessions,
    request: RequestView,
    fresh_id: Seq<char>,
    system_prompt: Option<Seq<char>>,
    now: nat,
    sid: Seq<char>,
)
    requires
        request.method == "session/cancel"@,
        request.params.text_at("sessionId"@) == Some(sid),
        sessions.contains_key(sid),
    ensures
        request_effect(config, listed, sessions, request, fresh_id, system_prompt, now).sessions
            == sessions.insert(sid, (SessionView { cancelled: true, ..sessions[sid] })),
{
}

/// A request stands for what its fields hold. One without parameters has none of them.
pub proof fn requests_stand_for_their_fields(request: JsonRpcRequest)
    ensures
        request.id is None ==> request@.id is None,
        request.id is Some ==> request@.id == Some(request.id->0@),
        request@.method == request.method@,
        request.params is Some ==> request@.params == request.params->0@,
        request.params is None ==> request@.params == JsonView::Object(Map::empty()),
{
}

/// Each method does what its handler does, and nothing comes in between.
pub proof fn each_method_has_its_handler(
    config: LlmConfigView,
    listed: Seq<Seq<char>>,
    sessions: Sessions,
    request: RequestView,
    fresh_id: Seq<char>,
    system_prompt: Option<Seq<char>>,
    now: nat,
)
    requires
        request.id is Some,
    ensures
        ({
            let id = request.id->0;
            let params = request.params;
            let effect = request_effect(
                config,
                listed,
                sessions,
                request,
                fresh_id,
                system_prompt,
                now,
            );
            let new = new_session_effect(
                config,
                listed,
                sessions,
                id,
                params,
                fresh_id,
                system_prompt,
                now,
            );
            let option = set_option_effect(config, listed, sessions, id, params);
            let mode = set_mode_effect(sessions, id, params);
            let end = end_effect(sessions, id, params);
            &&& request.method == "session/new"@ ==> effect.sessions == new.sessions && effect.sent
                == new.sent && effect.turn is None
            &&& request.method == "session/set_config_option"@ ==> effect.sessions
                == option.sessions && effect.sent == option.sent && effect.turn is None
            &&& request.method == "session/set_mode"@ ==> effect.sessions == mode.sessions
                && effect.sent == mode.sent && effect.turn is None
            &&& request.method == "session/end"@ || request.method == "session/close"@
                ==> effect.sessions == end.sessions && effect.sent == end.sent
                && effect.turn is None
            &&& request.method == "session/prompt"@ ==> effect == prompt_effect(
                config,
                sessions,
                id,
                params,
                fresh_id,
                now,
            )
        }),
{
    lemma_methods_differ();
}

/// A request to switch something that does not say what, or to what, is refused as incomplete, and
/// the client is told what is missing.
pub proof fn incomplete_switches_are_refused(
    config: LlmConfigView,
    listed: Seq<Seq<char>>,
    sessions: Sessions,
    id: JsonView,
    params: JsonView,
)
    requires
        params.text_at("sessionId"@) is Some,
    ensures
        ({
            let missing = |effect: Effect, field: Seq<char>|
                effect.sessions == sessions && effect.sent.len() == 1 && answers(
                    effect.sent[0],
                    id,
                ) && reports(effect.sent[0], -32602) && text_of(
                    field_of(effect.sent[0].get("error"@), "message"@),
                ) == Some("Missing required parameter: "@ + field);
            let option = set_option_effect(config, listed, sessions, id, params);
            &&& params.text_at("modeId"@) is None ==> missing(
                set_mode_effect(sessions, id, params),
                "modeId"@,
            )
            &&& params.text_at("configId"@) is None ==> missing(option, "configId"@)
            &&& params.text_at("configId"@) is Some && params.text_at("value"@) is None
                ==> missing(option, "value"@)
        }),
{
    lemma_error_codes();
    lemma_all_answers();
}

} // verus!
