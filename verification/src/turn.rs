//! A prompt turn: what happens between a `session/prompt` request and its response.
//!
//! The turn asks the model, runs the tools that the model calls for, tells the model their
//! results, and so on until the model answers with text. The caller does the asking and the
//! running, and reports what came of it.

use vstd::prelude::*;

use crate::acp::{
    answers, failure_message, infer_tool_kind, is_notification, notifications_have_no_id,
    notify_text, notify_thinking, notify_tool_done, notify_tool_start, response_message,
    responses_answer_their_request, send_failure, send_response, session_update_message,
    text_message, thinking_message, tool_done_message, tool_kind, tool_kinds_follow_from_names,
    tool_start_message, update_in, updates_hold_what_they_tell, Outbox,
};
use crate::bridge::{after_cancel, require_text, Bridge, Sessions};
use crate::ids::{is_random_uuid, new_uuid};
use crate::json::{
    copy_list, field_of, item_of, items_of, items_view, json_read, optional_json, parse, text_of,
    Fields, Json, JsonView,
};
use crate::llm::{body_of, chat, is_chat_request, ChatRequest, LlmConfig, LlmConfigView};
use crate::options::{
    augment_messages_for_llm, augmented, chat_message, make_message, messages_hold_what_was_said,
    the_model_gets_the_conversation,
};
use crate::protocol::{trimmed_history, AcpError, AcpErrorView, SessionView};
use crate::text::{join, join_three, joined, same, texts};

verus! {

/// How often the model is asked in one turn.
pub const MAX_TOOL_ROUNDS: usize = 5;

/// The tool calls in a model's response: `message.tool_calls`, or else
/// `choices[0].message.tool_calls`.
pub open spec fn tool_calls_of(response: JsonView) -> Seq<JsonView> {
    match items_of(field_of(response.get("message"@), "tool_calls"@)) {
        Some(calls) => calls,
        None => match items_of(
            field_of(field_of(item_of(response.get("choices"@), 0), "message"@), "tool_calls"@),
        ) {
            Some(calls) => calls,
            None => Seq::empty(),
        },
    }
}

/// The text in a model's response: `message.content` where it is not empty, or else
/// `choices[0].message.content`.
pub open spec fn response_text_of(response: JsonView) -> Seq<char> {
    match text_of(field_of(response.get("message"@), "content"@)) {
        Some(text) if text.len() > 0 => text,
        _ => match text_of(
            field_of(field_of(item_of(response.get("choices"@), 0), "message"@), "content"@),
        ) {
            Some(text) => text,
            None => Seq::empty(),
        },
    }
}

/// The first choice's message, where a response has one.
pub open spec fn choice_message(response: JsonView) -> JsonView {
    match field_of(item_of(response.get("choices"@), 0), "message"@) {
        Some(message) => message,
        None => JsonView::Null,
    }
}

fn first_choice_message(response: &Json) -> (r: Option<&Json>)
    ensures
        crate::json::optional_view(r) == field_of(
            item_of(response@.get("choices"@), 0),
            "message"@,
        ),
{
    match response.get("choices") {
        Some(choices) => match choices.item(0) {
            Some(choice) => choice.get("message"),
            None => None,
        },
        None => None,
    }
}

fn calls_in(message: Option<&Json>) -> (r: Option<Vec<Json>>)
    ensures
        match r {
            Some(calls) => items_of(
                field_of(crate::json::optional_view(message), "tool_calls"@),
            ) == Some(items_view(calls@)),
            None => items_of(field_of(crate::json::optional_view(message), "tool_calls"@)) is None,
        },
{
    match message {
        Some(message) => match message.get("tool_calls") {
            Some(calls) => match calls.as_array() {
                Some(items) => Some(copy_list(items)),
                None => None,
            },
            None => None,
        },
        None => None,
    }
}

/// The tool calls in a model's response, in Ollama's or in OpenAI's format.
pub fn extract_tool_calls(response: &Json) -> (r: Vec<Json>)
    ensures
        items_view(r@) == tool_calls_of(response@),
{
    if let Some(calls) = calls_in(response.get("message")) {
        return calls;
    }
    if let Some(calls) = calls_in(first_choice_message(response)) {
        return calls;
    }
    let none: Vec<Json> = Vec::new();
    assert(items_view(none@) == Seq::<JsonView>::empty());
    none
}

/// The text in a model's response, in Ollama's or in OpenAI's format.
pub fn extract_response_text(response: &Json) -> (r: String)
    ensures
        r@ == response_text_of(response@),
{
    if let Some(message) = response.get("message") {
        if let Some(text) = message.text_at("content") {
            if !text.as_str().is_empty() {
                return text;
            }
        }
    }
    if let Some(message) = first_choice_message(response) {
        if let Some(text) = message.text_at("content") {
            return text;
        }
    }
    String::new()
}

/// The name of the tool that a call is for.
pub open spec fn tool_name_of(call: JsonView) -> Seq<char> {
    match text_of(field_of(call.get("function"@), "name"@)) {
        Some(name) => name,
        None => "unknown"@,
    }
}

/// The text of a call's arguments.
pub open spec fn arguments_text_of(call: JsonView) -> Seq<char> {
    match text_of(field_of(call.get("function"@), "arguments"@)) {
        Some(text) => text,
        None => "{}"@,
    }
}

/// A call's arguments, where their text is the given JSON or none. What is not JSON is passed on
/// as it is.
pub open spec fn arguments_of(call: JsonView, read: Option<JsonView>) -> JsonView {
    match read {
        Some(args) => args,
        None => match field_of(call.get("function"@), "arguments"@) {
            Some(args) => args,
            None => JsonView::Null,
        },
    }
}

/// The name of the tool that a call is for.
pub fn tool_name(call: &Json) -> (r: String)
    ensures
        r@ == tool_name_of(call@),
{
    if let Some(function) = call.get("function") {
        if let Some(name) = function.text_at("name") {
            return name;
        }
    }
    "unknown".to_owned()
}

/// The text of a call's arguments.
pub fn arguments_text(call: &Json) -> (r: String)
    ensures
        r@ == arguments_text_of(call@),
{
    if let Some(function) = call.get("function") {
        if let Some(text) = function.text_at("arguments") {
            return text;
        }
    }
    "{}".to_owned()
}

/// A call's arguments, given what their text was read as.
pub fn arguments_or_raw(call: &Json, read: Option<Json>) -> (r: Json)
    ensures
        r@ == arguments_of(call@, optional_json(read)),
{
    if let Some(args) = read {
        return args;
    }
    if let Some(function) = call.get("function") {
        if let Some(args) = function.get("arguments") {
            return args.clone();
        }
    }
    Json::Null
}

/// A call's arguments.
pub fn tool_arguments(call: &Json) -> (r: Json)
    ensures
        r@ == arguments_of(call@, json_read(arguments_text_of(call@))),
{
    let text: String = arguments_text(call);
    arguments_or_raw(call, parse(text.as_str()))
}

/// The texts of a prompt's text blocks, in order.
pub open spec fn text_blocks(blocks: Seq<JsonView>) -> Seq<Seq<char>>
    decreases blocks.len(),
{
    if blocks.len() == 0 {
        Seq::empty()
    } else {
        let rest = text_blocks(blocks.drop_last());
        match (blocks.last().text_at("type"@), blocks.last().text_at("text"@)) {
            (Some(kind), Some(text)) => if kind == "text"@ {
                rest.push(text)
            } else {
                rest
            },
            _ => rest,
        }
    }
}

/// What the user said: the texts of the prompt's text blocks, on lines of their own.
pub open spec fn user_text_of(params: JsonView) -> Seq<char> {
    match items_of(params.get("prompt"@)) {
        Some(blocks) => joined(text_blocks(blocks), "\n"@),
        None => Seq::empty(),
    }
}

/// What the user said in a prompt.
pub fn user_text(params: &Json) -> (r: String)
    ensures
        r@ == user_text_of(params@),
{
    let blocks: &Vec<Json> = match params.get("prompt") {
        Some(prompt) => match prompt.as_array() {
            Some(blocks) => blocks,
            None => return String::new(),
        },
        None => return String::new(),
    };
    let mut parts: Vec<String> = Vec::new();
    let mut i: usize = 0;
    assert(texts(parts@) == Seq::<Seq<char>>::empty());
    while i < blocks.len()
        invariant
            i <= blocks@.len(),
            texts(parts@) == text_blocks(items_view(blocks@).take(i as int)),
        decreases blocks@.len() - i,
    {
        let ghost seen = items_view(blocks@).take(i + 1);
        let ghost so_far = parts@;
        assert(seen.drop_last() == items_view(blocks@).take(i as int));
        assert(seen.last() == blocks@[i as int]@);
        if let Some(kind) = blocks[i].text_at("type") {
            if same(kind.as_str(), "text") {
                if let Some(text) = blocks[i].text_at("text") {
                    parts.push(text);
                    assert(texts(parts@) == texts(so_far).push(text@));
                }
            }
        }
        i += 1;
    }
    assert(items_view(blocks@).take(i as int) == items_view(blocks@));
    join(&parts, "\n")
}

/// A prompt that is being worked on.
#[derive(Debug)]
pub struct PromptTurn {
    /// The id of the request.
    pub id: Json,
    pub session_id: String,
    /// The session's mode and model when the turn began.
    pub mode: String,
    pub model: String,
    /// Under which id the client sees the conversation with the model.
    pub llm_tool_id: String,
    /// The directory in which the tools of this round work.
    pub working_dir: String,
    /// How many rounds are over.
    pub round: usize,
    /// The tool calls of this round that have not begun.
    pub calls: Vec<Json>,
    /// Under which id the client sees the tool call that is going on.
    pub tool_call_id: String,
}

/// The model of a [`PromptTurn`].
#[verifier::ext_equal]
pub struct TurnView {
    pub id: JsonView,
    pub session_id: Seq<char>,
    pub mode: Seq<char>,
    pub model: Seq<char>,
    pub llm_tool_id: Seq<char>,
    pub working_dir: Seq<char>,
    pub round: nat,
    pub calls: Seq<JsonView>,
    pub tool_call_id: Seq<char>,
}

impl View for PromptTurn {
    type V = TurnView;

    open spec fn view(&self) -> TurnView {
        TurnView {
            id: self.id@,
            session_id: self.session_id@,
            mode: self.mode@,
            model: self.model@,
            llm_tool_id: self.llm_tool_id@,
            working_dir: self.working_dir@,
            round: self.round as nat,
            calls: items_view(self.calls@),
            tool_call_id: self.tool_call_id@,
        }
    }
}

/// What a turn needs next.
#[derive(Debug)]
pub enum TurnStep {
    /// Ask the model to go on with the conversation.
    AskModel { turn: PromptTurn, messages: Vec<Json> },
    /// Run a tool.
    RunTool { turn: PromptTurn, name: String, args: Json },
    /// Nothing: the response has been sent.
    Finished,
}

/// The model of a [`TurnStep`].
#[verifier::ext_equal]
pub enum TurnStepView {
    AskModel { turn: TurnView, messages: Seq<JsonView> },
    RunTool { turn: TurnView, name: Seq<char>, args: JsonView },
    Finished,
}

impl View for TurnStep {
    type V = TurnStepView;

    open spec fn view(&self) -> TurnStepView {
        match self {
            TurnStep::AskModel { turn, messages } => TurnStepView::AskModel {
                turn: turn@,
                messages: items_view(messages@),
            },
            TurnStep::RunTool { turn, name, args } => TurnStepView::RunTool {
                turn: turn@,
                name: name@,
                args: args@,
            },
            TurnStep::Finished => TurnStepView::Finished,
        }
    }
}

/// What happened to a turn.
#[derive(Debug)]
pub enum TurnEvent {
    /// It was begun.
    Begun,
    /// The model responded.
    Responded { response: Json },
    /// The model could not be reached.
    Unreachable { reason: String },
    /// The tool came to a result.
    ToolDone { result: String },
}

/// The model of a [`TurnEvent`].
#[verifier::ext_equal]
pub enum TurnEventView {
    Begun,
    Responded { response: JsonView },
    Unreachable { reason: Seq<char> },
    ToolDone { result: Seq<char> },
}

impl View for TurnEvent {
    type V = TurnEventView;

    open spec fn view(&self) -> TurnEventView {
        match self {
            TurnEvent::Begun => TurnEventView::Begun,
            TurnEvent::Responded { response } => TurnEventView::Responded { response: response@ },
            TurnEvent::Unreachable { reason } => TurnEventView::Unreachable { reason: reason@ },
            TurnEvent::ToolDone { result } => TurnEventView::ToolDone { result: result@ },
        }
    }
}

/// How a turn ends.
pub enum Ending {
    Completed,
    Failed,
    Cancelled,
}

impl Ending {
    /// The state in which the client sees the conversation with the model end.
    pub open spec fn status(self) -> Seq<char> {
        match self {
            Ending::Completed => "completed"@,
            _ => "failed"@,
        }
    }

    /// Why the turn stopped.
    pub open spec fn stop_reason(self) -> Seq<char> {
        match self {
            Ending::Completed => "end_turn"@,
            Ending::Failed => "refusal"@,
            Ending::Cancelled => "cancelled"@,
        }
    }

    /// The result of the request. A turn that was cancelled tells only why it stopped.
    pub open spec fn result(self) -> JsonView {
        JsonView::Object(
            match self {
                Ending::Cancelled => map!["stopReason"@ => JsonView::Text(self.stop_reason())],
                _ => map![
                    "status"@ => JsonView::Text(self.status()),
                    "stopReason"@ => JsonView::Text(self.stop_reason()),
                ],
            },
        )
    }
}

/// What an event leads to: the next step, the sessions, and the messages sent.
#[verifier::ext_equal]
pub struct TurnEffect {
    pub step: TurnStepView,
    pub sessions: Sessions,
    pub sent: Seq<JsonView>,
}

/// The messages come first, then what the effect sends.
pub open spec fn after_sending(sent: Seq<JsonView>, effect: TurnEffect) -> TurnEffect {
    TurnEffect { sent: sent + effect.sent, ..effect }
}

/// The turn ends: the client sees the conversation with the model end and gets its response.
pub open spec fn finished(turn: TurnView, sessions: Sessions, ending: Ending) -> TurnEffect {
    TurnEffect {
        step: TurnStepView::Finished,
        sessions,
        sent: seq![
            tool_done_message(turn.session_id, turn.llm_tool_id, ending.status()),
            response_message(turn.id, ending.result()),
        ],
    }
}

/// The sessions with one more message in the turn's own, if it is still open.
pub open spec fn with_message(sessions: Sessions, sid: Seq<char>, message: JsonView) -> Sessions {
    if sessions.contains_key(sid) {
        sessions.insert(sid, sessions[sid].push(message))
    } else {
        sessions
    }
}

/// A round begins: the model is asked, unless all rounds are over or the turn is cancelled.
pub open spec fn round_begun(turn: TurnView, sessions: Sessions) -> TurnEffect {
    let open = sessions.contains_key(turn.session_id);
    if turn.round >= MAX_TOOL_ROUNDS {
        finished(turn, sessions, Ending::Completed)
    } else if open && sessions[turn.session_id].cancelled {
        finished(turn, sessions, Ending::Cancelled)
    } else {
        let messages = if open {
            sessions[turn.session_id].messages
        } else {
            Seq::empty()
        };
        let working_dir = if open {
            sessions[turn.session_id].working_dir
        } else {
            Seq::empty()
        };
        TurnEffect {
            step: TurnStepView::AskModel {
                turn: TurnView { working_dir, ..turn },
                messages: augmented(messages, turn.mode),
            },
            sessions,
            sent: Seq::empty(),
        }
    }
}

/// The next tool call of the round begins, or the next round where there is none.
pub open spec fn call_begun(
    turn: TurnView,
    sessions: Sessions,
    tool_call_id: Seq<char>,
) -> TurnEffect {
    if turn.calls.len() == 0 {
        round_begun(TurnView { round: turn.round + 1, ..turn }, sessions)
    } else {
        let call = turn.calls[0];
        let name = tool_name_of(call);
        TurnEffect {
            step: TurnStepView::RunTool {
                turn: TurnView { calls: turn.calls.drop_first(), tool_call_id, ..turn },
                name,
                args: arguments_of(call, json_read(arguments_text_of(call))),
            },
            sessions,
            sent: seq![
                tool_start_message(turn.session_id, tool_call_id, name, tool_kind(name)),
            ],
        }
    }
}

/// How the assistant's message is kept when it calls for tools.
pub open spec fn calling_message(
    native: bool,
    calls: Seq<JsonView>,
    response: JsonView,
) -> JsonView {
    if native {
        JsonView::Object(
            map![
                "role"@ => JsonView::Text("assistant"@),
                "content"@ => JsonView::Text(""@),
                "tool_calls"@ => JsonView::Array(calls),
            ],
        )
    } else {
        choice_message(response)
    }
}

/// How a failure to reach the model is shown.
pub open spec fn failure_text(reason: Seq<char>) -> Seq<char> {
    "\n\n**Error:** "@ + AcpErrorView::LlmError { reason }.message() + "\n"@
}

/// What an event leads to. A tool call that begins gets the given id.
pub open spec fn turn_effect(
    native: bool,
    sessions: Sessions,
    turn: TurnView,
    event: TurnEventView,
    tool_call_id: Seq<char>,
) -> TurnEffect {
    match event {
        TurnEventView::Begun => round_begun(turn, sessions),
        TurnEventView::Responded { response } => {
            let calls = tool_calls_of(response);
            let text = response_text_of(response);
            if calls.len() > 0 {
                call_begun(
                    TurnView { calls, ..turn },
                    with_message(
                        sessions,
                        turn.session_id,
                        calling_message(native, calls, response),
                    ),
                    tool_call_id,
                )
            } else if text.len() > 0 {
                after_sending(
                    seq![text_message(turn.session_id, text)],
                    finished(
                        turn,
                        with_message(sessions, turn.session_id, chat_message("assistant"@, text)),
                        Ending::Completed,
                    ),
                )
            } else {
                finished(turn, sessions, Ending::Completed)
            }
        },
        TurnEventView::Unreachable { reason } => after_sending(
            seq![text_message(turn.session_id, failure_text(reason))],
            finished(turn, sessions, Ending::Failed),
        ),
        TurnEventView::ToolDone { result } => after_sending(
            seq![tool_done_message(turn.session_id, turn.tool_call_id, "completed"@)],
            call_begun(
                turn,
                with_message(sessions, turn.session_id, chat_message("tool"@, result)),
                tool_call_id,
            ),
        ),
    }
}

/// Whether an effect took place, and nothing else: the settings and the known models stay.
pub open spec fn turn_took_effect(
    before: Bridge,
    after: Bridge,
    sent_before: Seq<JsonView>,
    sent_after: Seq<JsonView>,
    step: TurnStepView,
    effect: TurnEffect,
) -> bool {
    &&& after.wf()
    &&& after.config == before.config
    &&& after.models == before.models
    &&& after.sessions@ == effect.sessions
    &&& sent_after == sent_before + effect.sent
    &&& step == effect.step
}

fn finish(turn: PromptTurn, ending: Ending, out: &mut Outbox)
    ensures
        final(out)@ == old(out)@ + seq![
            tool_done_message(turn@.session_id, turn@.llm_tool_id, ending.status()),
            response_message(turn@.id, ending.result()),
        ],
{
    let (status, stop_reason): (&str, &str) = match ending {
        Ending::Completed => ("completed", "end_turn"),
        Ending::Failed => ("failed", "refusal"),
        Ending::Cancelled => ("failed", "cancelled"),
    };
    notify_tool_done(out, turn.session_id.as_str(), turn.llm_tool_id.as_str(), status);
    let result: Fields = match ending {
        Ending::Cancelled => Fields::new(),
        _ => Fields::new().with("status", Json::text(status)),
    };
    send_response(
        out,
        &turn.id,
        Json::Object(result.with("stopReason", Json::text(stop_reason))),
    );
}

fn add_message(bridge: &mut Bridge, session_id: &str, message: Json)
    requires
        old(bridge).wf(),
    ensures
        final(bridge).wf(),
        final(bridge).config == old(bridge).config,
        final(bridge).models == old(bridge).models,
        final(bridge).sessions@ == with_message(old(bridge).sessions@, session_id@, message@),
{
    match bridge.sessions.get_mut(session_id) {
        Some(session) => {
            session.push(message);
        },
        None => {},
    }
}

fn begin_round(bridge: &Bridge, turn: PromptTurn, out: &mut Outbox) -> (r: TurnStep)
    requires
        bridge.wf(),
    ensures
        r@ == round_begun(turn@, bridge.sessions@).step,
        final(out)@ == old(out)@ + round_begun(turn@, bridge.sessions@).sent,
{
    if turn.round >= MAX_TOOL_ROUNDS {
        finish(turn, Ending::Completed, out);
        return TurnStep::Finished;
    }
    let mut turn: PromptTurn = turn;
    let messages: Vec<Json> = match bridge.sessions.get(turn.session_id.as_str()) {
        Some(session) => {
            if session.is_cancelled() {
                finish(turn, Ending::Cancelled, out);
                return TurnStep::Finished;
            }
            turn.working_dir = session.working_dir.clone();
            augment_messages_for_llm(&session.messages, turn.mode.as_str())
        },
        None => {
            turn.working_dir = String::new();
            let none: Vec<Json> = Vec::new();
            assert(items_view(none@) == Seq::<JsonView>::empty());
            none
        },
    };
    assert(out@ == old(out)@ + Seq::<JsonView>::empty());
    TurnStep::AskModel { turn, messages }
}

fn begin_call(bridge: &Bridge, turn: PromptTurn, tool_call_id: String, out: &mut Outbox) -> (r:
    TurnStep)
    requires
        bridge.wf(),
    ensures
        r@ == call_begun(turn@, bridge.sessions@, tool_call_id@).step,
        final(out)@ == old(out)@ + call_begun(turn@, bridge.sessions@, tool_call_id@).sent,
{
    let mut turn: PromptTurn = turn;
    let ghost effect = call_begun(turn@, bridge.sessions@, tool_call_id@);
    if turn.calls.len() == 0 {
        if turn.round >= MAX_TOOL_ROUNDS {
            finish(turn, Ending::Completed, out);
            return TurnStep::Finished;
        }
        turn.round = turn.round + 1;
        return begin_round(bridge, turn, out);
    }
    let ghost calls = turn.calls@;
    let call: Json = turn.calls.remove(0);
    assert(items_view(turn.calls@) == items_view(calls).drop_first());
    let name: String = tool_name(&call);
    let args: Json = tool_arguments(&call);
    notify_tool_start(
        out,
        turn.session_id.as_str(),
        tool_call_id.as_str(),
        name.as_str(),
        infer_tool_kind(name.as_str()),
    );
    turn.tool_call_id = tool_call_id;
    assert(out@ == old(out)@ + effect.sent);
    TurnStep::RunTool { turn, name, args }
}

/// Takes a turn further after an event. A tool call that begins gets the given id.
pub fn advance_with_id(
    bridge: &mut Bridge,
    turn: PromptTurn,
    event: TurnEvent,
    tool_call_id: String,
    out: &mut Outbox,
) -> (r: TurnStep)
    requires
        old(bridge).wf(),
    ensures
        turn_took_effect(
            *old(bridge),
            *final(bridge),
            old(out)@,
            final(out)@,
            r@,
            turn_effect(
                old(bridge).config@.ollama_native,
                old(bridge).sessions@,
                turn@,
                event@,
                tool_call_id@,
            ),
        ),
{
    let ghost effect = turn_effect(
        bridge.config@.ollama_native,
        bridge.sessions@,
        turn@,
        event@,
        tool_call_id@,
    );
    match event {
        TurnEvent::Begun => begin_round(bridge, turn, out),
        TurnEvent::Responded { response } => {
            let mut turn: PromptTurn = turn;
            let calls: Vec<Json> = extract_tool_calls(&response);
            if calls.len() > 0 {
                let message: Json = if bridge.config.is_ollama_native() {
                    Json::Object(
                        Fields::new().with("role", Json::text("assistant")).with(
                            "content",
                            Json::text(""),
                        ).with("tool_calls", Json::Array(copy_list(&calls))),
                    )
                } else {
                    match first_choice_message(&response) {
                        Some(message) => message.clone(),
                        None => Json::Null,
                    }
                };
                add_message(bridge, turn.session_id.as_str(), message);
                turn.calls = calls;
                begin_call(bridge, turn, tool_call_id, out)
            } else {
                let text: String = extract_response_text(&response);
                if !text.as_str().is_empty() {
                    notify_text(out, turn.session_id.as_str(), text.as_str());
                    add_message(
                        bridge,
                        turn.session_id.as_str(),
                        make_message("assistant", text.as_str()),
                    );
                }
                finish(turn, Ending::Completed, out);
                assert(out@ == old(out)@ + effect.sent);
                TurnStep::Finished
            }
        },
        TurnEvent::Unreachable { reason } => {
            let error: AcpError = AcpError::LlmError { reason };
            let message: String = error.to_string();
            let text: String = join_three("\n\n**Error:** ", message.as_str(), "\n");
            notify_text(out, turn.session_id.as_str(), text.as_str());
            finish(turn, Ending::Failed, out);
            assert(out@ == old(out)@ + effect.sent);
            TurnStep::Finished
        },
        TurnEvent::ToolDone { result } => {
            notify_tool_done(
                out,
                turn.session_id.as_str(),
                turn.tool_call_id.as_str(),
                "completed",
            );
            add_message(
                bridge,
                turn.session_id.as_str(),
                make_message("tool", result.as_str()),
            );
            let r = begin_call(bridge, turn, tool_call_id, out);
            assert(out@ == old(out)@ + effect.sent);
            r
        },
    }
}

/// Takes a turn further after an event. A tool call that begins gets a fresh id.
pub fn advance(bridge: &mut Bridge, turn: PromptTurn, event: TurnEvent, out: &mut Outbox) -> (r:
    TurnStep)
    requires
        old(bridge).wf(),
    ensures
        exists|tool_call_id: Seq<char>|
            is_random_uuid(tool_call_id) && #[trigger] turn_took_effect(
                *old(bridge),
                *final(bridge),
                old(out)@,
                final(out)@,
                r@,
                turn_effect(
                    old(bridge).config@.ollama_native,
                    old(bridge).sessions@,
                    turn@,
                    event@,
                    tool_call_id,
                ),
            ),
{
    let tool_call_id: String = new_uuid();
    advance_with_id(bridge, turn, event, tool_call_id, out)
}

/// A session in which a prompt begins: it is in use and not cancelled, and what the user said
/// is the latest message of a history of no more than the given number of turns.
pub open spec fn prompted(
    session: SessionView,
    text: Seq<char>,
    max_turns: nat,
    now: nat,
) -> SessionView {
    let messages = session.messages.push(chat_message("user"@, text));
    SessionView {
        cancelled: false,
        last_active: now,
        messages: if max_turns > 0 {
            trimmed_history(messages, max_turns)
        } else {
            messages
        },
        ..session
    }
}

/// What beginning a turn does: the turn, if one begins, the sessions, and the messages sent.
#[verifier::ext_equal]
pub struct PromptEffect {
    pub turn: Option<TurnView>,
    pub sessions: Sessions,
    pub sent: Seq<JsonView>,
}

/// `session/prompt`: in a session that is there, a turn begins.
pub open spec fn prompt_effect(
    config: LlmConfigView,
    sessions: Sessions,
    id: JsonView,
    params: JsonView,
    llm_tool_id: Seq<char>,
    now: nat,
) -> PromptEffect {
    match params.text_at("sessionId"@) {
        None => PromptEffect {
            turn: None,
            sessions,
            sent: seq![
                failure_message(id, AcpErrorView::MissingParam { field: "sessionId"@ }),
            ],
        },
        Some(sid) => if !sessions.contains_key(sid) {
            PromptEffect {
                turn: None,
                sessions,
                sent: seq![
                    failure_message(id, AcpErrorView::UnknownSession { session_id: sid }),
                ],
            }
        } else {
            PromptEffect {
                turn: Some(
                    TurnView {
                        id,
                        session_id: sid,
                        mode: sessions[sid].mode,
                        model: sessions[sid].model,
                        llm_tool_id,
                        working_dir: Seq::empty(),
                        round: 0,
                        calls: Seq::empty(),
                        tool_call_id: Seq::empty(),
                    },
                ),
                sessions: sessions.insert(
                    sid,
                    prompted(sessions[sid], user_text_of(params), config.max_history_turns, now),
                ),
                sent: seq![
                    thinking_message(sid),
                    tool_start_message(sid, llm_tool_id, "LLM chat"@, tool_kind("llm_chat"@)),
                ],
            }
        },
    }
}

/// The model of an optional turn.
pub open spec fn optional_turn(turn: Option<PromptTurn>) -> Option<TurnView> {
    match turn {
        Some(t) => Some(t@),
        None => None,
    }
}

/// Whether a turn began as it should, and nothing else happened.
pub open spec fn prompt_took_effect(
    before: Bridge,
    after: Bridge,
    sent_before: Seq<JsonView>,
    sent_after: Seq<JsonView>,
    turn: Option<TurnView>,
    effect: PromptEffect,
) -> bool {
    &&& after.wf()
    &&& after.config == before.config
    &&& after.models == before.models
    &&& after.sessions@ == effect.sessions
    &&& sent_after == sent_before + effect.sent
    &&& turn == effect.turn
}

/// Begins a turn. The client sees the conversation with the model under the given id.
pub fn begin_turn(
    bridge: &mut Bridge,
    id: &Json,
    params: &Json,
    llm_tool_id: String,
    now: u128,
    out: &mut Outbox,
) -> (r: Option<PromptTurn>)
    requires
        old(bridge).wf(),
    ensures
        prompt_took_effect(
            *old(bridge),
            *final(bridge),
            old(out)@,
            final(out)@,
            optional_turn(r),
            prompt_effect(
                old(bridge).config@,
                old(bridge).sessions@,
                id@,
                params@,
                llm_tool_id@,
                now as nat,
            ),
        ),
{
    let ghost effect = prompt_effect(
        bridge.config@,
        bridge.sessions@,
        id@,
        params@,
        llm_tool_id@,
        now as nat,
    );
    let session_id: String = match require_text(out, id, params, "sessionId") {
        Some(s) => s,
        None => {
            assert(out@ == old(out)@ + effect.sent);
            return None;
        },
    };
    let text: String = user_text(params);
    let max_turns: usize = bridge.config.max_history_turns;
    let (mode, model): (String, String) = match bridge.sessions.get_mut(session_id.as_str()) {
        Some(session) => {
            session.clear_cancel();
            session.touch(now);
            session.push(make_message("user", text.as_str()));
            if max_turns > 0 {
                session.trim_history(max_turns);
            }
            (session.mode.clone(), session.model.clone())
        },
        None => {
            send_failure(out, id, &AcpError::UnknownSession { session_id });
            assert(out@ == old(out)@ + effect.sent);
            return None;
        },
    };
    notify_thinking(out, session_id.as_str());
    notify_tool_start(
        out,
        session_id.as_str(),
        llm_tool_id.as_str(),
        "LLM chat",
        infer_tool_kind("llm_chat"),
    );
    assert(out@ == old(out)@ + effect.sent);
    let calls: Vec<Json> = Vec::new();
    assert(items_view(calls@) == Seq::<JsonView>::empty());
    Some(
        PromptTurn {
            id: id.clone(),
            session_id,
            mode,
            model,
            llm_tool_id,
            working_dir: String::new(),
            round: 0,
            calls,
            tool_call_id: String::new(),
        },
    )
}

/// Handles `session/prompt`: begins a turn. The client sees the conversation with the model
/// under a fresh id.
pub fn handle_session_prompt(
    bridge: &mut Bridge,
    id: &Json,
    params: &Json,
    now: u128,
    out: &mut Outbox,
) -> (r: Option<PromptTurn>)
    requires
        old(bridge).wf(),
    ensures
        exists|llm_tool_id: Seq<char>|
            is_random_uuid(llm_tool_id) && #[trigger] prompt_took_effect(
                *old(bridge),
                *final(bridge),
                old(out)@,
                final(out)@,
                optional_turn(r),
                prompt_effect(
                    old(bridge).config@,
                    old(bridge).sessions@,
                    id@,
                    params@,
                    llm_tool_id,
                    now as nat,
                ),
            ),
{
    let llm_tool_id: String = new_uuid();
    begin_turn(bridge, id, params, llm_tool_id, now, out)
}

/// The tools to tell the model of: a list, or nothing where it is empty.
pub open spec fn offered_tools(tools: Seq<JsonView>) -> Option<Seq<JsonView>> {
    if tools.len() == 0 {
        None
    } else {
        Some(tools)
    }
}

/// The request with which a turn asks the model.
pub fn model_request(
    config: &LlmConfig,
    turn: &PromptTurn,
    messages: &Vec<Json>,
    tools: &Vec<Json>,
) -> (r: ChatRequest)
    ensures
        is_chat_request(
            r,
            config@,
            body_of(
                config@,
                items_view(messages@),
                turn@.model,
                false,
                offered_tools(items_view(tools@)),
            ),
        ),
{
    if tools.len() == 0 {
        chat(config, messages, Some(turn.model.as_str()), None)
    } else {
        chat(config, messages, Some(turn.model.as_str()), Some(tools))
    }
}

/// Whether a message is an update of a session.
pub open spec fn is_update_of(message: JsonView, session_id: Seq<char>) -> bool {
    exists|update: JsonView| message == #[trigger] session_update_message(session_id, update)
}

/// Whether all messages are updates of a session.
pub open spec fn all_updates(messages: Seq<JsonView>, session_id: Seq<char>) -> bool {
    forall|i: int| 0 <= i < messages.len() ==> #[trigger] is_update_of(messages[i], session_id)
}

/// The response to a prompt whose turn ends in the given way.
pub open spec fn prompt_answer(id: JsonView, ending: Ending) -> JsonView {
    response_message(id, ending.result())
}

/// Whether messages are updates of a session and, last, the answer to a prompt.
pub open spec fn ends_with_answer(
    messages: Seq<JsonView>,
    id: JsonView,
    session_id: Seq<char>,
) -> bool {
    &&& messages.len() > 0
    &&& exists|ending: Ending| messages.last() == #[trigger] prompt_answer(id, ending)
    &&& all_updates(messages.drop_last(), session_id)
}

/// The turn that a step goes on with.
pub open spec fn turn_in(step: TurnStepView) -> Option<TurnView> {
    match step {
        TurnStepView::AskModel { turn, .. } => Some(turn),
        TurnStepView::RunTool { turn, .. } => Some(turn),
        TurnStepView::Finished => None,
    }
}

/// Whether two turns are for the same request, with the same choices.
pub open spec fn same_turn(a: TurnView, b: TurnView) -> bool {
    &&& a.id == b.id
    &&& a.session_id == b.session_id
    &&& a.mode == b.mode
    &&& a.model == b.model
    &&& a.llm_tool_id == b.llm_tool_id
}

/// The messages that report on a session are updates of it.
pub(crate) proof fn lemma_all_updates(session_id: Seq<char>)
    ensures
        is_update_of(thinking_message(session_id), session_id),
        forall|text: Seq<char>| is_update_of(#[trigger] text_message(session_id, text), session_id),
        forall|tool_call_id: Seq<char>, title: Seq<char>, kind: Seq<char>|
            is_update_of(
                #[trigger] tool_start_message(session_id, tool_call_id, title, kind),
                session_id,
            ),
        forall|tool_call_id: Seq<char>, status: Seq<char>|
            is_update_of(
                #[trigger] tool_done_message(session_id, tool_call_id, status),
                session_id,
            ),
{
}

/// Updates of a session carry no id and name the session, and the answer to a prompt carries the
/// request's id: a client can tell them apart.
pub proof fn updates_are_told_from_answers(message: JsonView, session_id: Seq<char>)
    requires
        is_update_of(message, session_id),
    ensures
        is_notification(message),
        text_of(message.get("method"@)) == Some("session/update"@),
        text_of(field_of(message.get("params"@), "sessionId"@)) == Some(session_id),
        forall|id: JsonView, ending: Ending| answers(#[trigger] prompt_answer(id, ending), id),
{
    let update = choose|update: JsonView|
        message == #[trigger] session_update_message(session_id, update);
    let params = JsonView::Object(
        map!["sessionId"@ => JsonView::Text(session_id), "update"@ => update],
    );
    notifications_have_no_id("session/update"@, params);
    reveal_strlit("method");
    reveal_strlit("params");
    reveal_strlit("sessionId");
    reveal_strlit("update");
    assert("method"@.len() == 6);
    assert("params"@.len() == 6);
    assert("method"@[0] == 'm');
    assert("params"@[0] == 'p');
    assert("sessionId"@.len() == 9);
    assert("update"@.len() == 6);
    assert(message.get("params"@) == Some(params));
    assert forall|id: JsonView, ending: Ending| answers(#[trigger] prompt_answer(id, ending), id) by {
        responses_answer_their_request(id, ending.result(), 0, Seq::empty());
    }
}

/// How a turn that ends is answered.
proof fn lemma_finished(turn: TurnView, sessions: Sessions, ending: Ending)
    ensures
        ends_with_answer(finished(turn, sessions, ending).sent, turn.id, turn.session_id),
{
    lemma_all_updates(turn.session_id);
    assert(finished(turn, sessions, ending).sent.last() == prompt_answer(turn.id, ending));
}

/// Updates in front of an answer change nothing.
proof fn lemma_more_updates(
    more: Seq<JsonView>,
    messages: Seq<JsonView>,
    id: JsonView,
    session_id: Seq<char>,
)
    requires
        all_updates(more, session_id),
    ensures
        all_updates(messages, session_id) ==> all_updates(more + messages, session_id),
        ends_with_answer(messages, id, session_id) ==> ends_with_answer(
            more + messages,
            id,
            session_id,
        ),
{
    if ends_with_answer(messages, id, session_id) {
        assert((more + messages).drop_last() == more + messages.drop_last());
    }
}

/// What a round sends as it begins.
proof fn lemma_round_messages(turn: TurnView, sessions: Sessions)
    ensures
        ({
            let effect = round_begun(turn, sessions);
            match turn_in(effect.step) {
                Some(next) => same_turn(turn, next) && all_updates(effect.sent, turn.session_id),
                None => ends_with_answer(effect.sent, turn.id, turn.session_id),
            }
        }),
{
    lemma_finished(turn, sessions, Ending::Completed);
    lemma_finished(turn, sessions, Ending::Cancelled);
}

/// What a tool call sends as it begins.
proof fn lemma_call_messages(turn: TurnView, sessions: Sessions, tool_call_id: Seq<char>)
    ensures
        ({
            let effect = call_begun(turn, sessions, tool_call_id);
            match turn_in(effect.step) {
                Some(next) => same_turn(turn, next) && all_updates(effect.sent, turn.session_id),
                None => ends_with_answer(effect.sent, turn.id, turn.session_id),
            }
        }),
{
    lemma_all_updates(turn.session_id);
    lemma_round_messages(TurnView { round: turn.round + 1, ..turn }, sessions);
}

/// The client gets its answer when the turn ends, as the last message of the turn. Until then, it
/// gets updates of the turn's session only, and the turn stays the same.
pub proof fn the_answer_comes_last(
    native: bool,
    sessions: Sessions,
    turn: TurnView,
    event: TurnEventView,
    tool_call_id: Seq<char>,
)
    ensures
        ({
            let effect = turn_effect(native, sessions, turn, event, tool_call_id);
            match turn_in(effect.step) {
                Some(next) => same_turn(turn, next) && all_updates(effect.sent, turn.session_id),
                None => ends_with_answer(effect.sent, turn.id, turn.session_id),
            }
        }),
{
    lemma_all_updates(turn.session_id);
    match event {
        TurnEventView::Begun => {
            lemma_round_messages(turn, sessions);
        },
        TurnEventView::Responded { response } => {
            let calls = tool_calls_of(response);
            let text = response_text_of(response);
            if calls.len() > 0 {
                lemma_call_messages(
                    TurnView { calls, ..turn },
                    with_message(
                        sessions,
                        turn.session_id,
                        calling_message(native, calls, response),
                    ),
                    tool_call_id,
                );
            } else {
                let after = with_message(
                    sessions,
                    turn.session_id,
                    chat_message("assistant"@, text),
                );
                lemma_finished(turn, after, Ending::Completed);
                lemma_finished(turn, sessions, Ending::Completed);
                lemma_more_updates(
                    seq![text_message(turn.session_id, text)],
                    finished(turn, after, Ending::Completed).sent,
                    turn.id,
                    turn.session_id,
                );
            }
        },
        TurnEventView::Unreachable { reason } => {
            lemma_finished(turn, sessions, Ending::Failed);
            lemma_more_updates(
                seq![text_message(turn.session_id, failure_text(reason))],
                finished(turn, sessions, Ending::Failed).sent,
                turn.id,
                turn.session_id,
            );
        },
        TurnEventView::ToolDone { result } => {
            let after = with_message(sessions, turn.session_id, chat_message("tool"@, result));
            lemma_call_messages(turn, after, tool_call_id);
            lemma_more_updates(
                seq![tool_done_message(turn.session_id, turn.tool_call_id, "completed"@)],
                call_begun(turn, after, tool_call_id).sent,
                turn.id,
                turn.session_id,
            );
        },
    }
}

/// A turn touches its own session only, opens and closes none, and changes nothing of it but the
/// history, to which it adds at most one message at a time.
pub proof fn turns_only_extend_their_session(
    native: bool,
    sessions: Sessions,
    turn: TurnView,
    event: TurnEventView,
    tool_call_id: Seq<char>,
)
    ensures
        ({
            let after = turn_effect(native, sessions, turn, event, tool_call_id).sessions;
            &&& after.dom() == sessions.dom()
            &&& forall|sid: Seq<char>|
                sessions.contains_key(sid) && sid != turn.session_id ==> #[trigger] after[sid]
                    == sessions[sid]
            &&& sessions.contains_key(turn.session_id) ==> {
                let was = sessions[turn.session_id];
                let is = after[turn.session_id];
                is == was || exists|message: JsonView| is == #[trigger] was.push(message)
            }
        }),
{
    let after = turn_effect(native, sessions, turn, event, tool_call_id).sessions;
    assert(after.dom() == sessions.dom());
}

/// A failure to reach the model ends the turn, and the request is answered all the same: with
/// the status `failed`.
pub proof fn failures_are_answered(
    native: bool,
    sessions: Sessions,
    turn: TurnView,
    reason: Seq<char>,
    tool_call_id: Seq<char>,
)
    ensures
        ({
            let event = TurnEventView::Unreachable { reason };
            let effect = turn_effect(native, sessions, turn, event, tool_call_id);
            let answer = effect.sent.last();
            &&& effect.step is Finished
            &&& effect.sessions == sessions
            &&& answers(answer, turn.id)
            &&& text_of(field_of(answer.get("result"@), "status"@)) == Some("failed"@)
            &&& effect.sent[0] == text_message(turn.session_id, failure_text(reason))
        }),
{
    responses_answer_their_request(turn.id, Ending::Failed.result(), 0, Seq::empty());
    reveal_strlit("status");
    reveal_strlit("stopReason");
    assert("status"@.len() == 6);
    assert("stopReason"@.len() == 10);
}

/// A request to cancel stops a turn before it asks the model again. The client is told that the
/// turn was cancelled, unless all rounds were over anyway.
pub proof fn cancelling_stops_the_turn(turn: TurnView, sessions: Sessions, params: JsonView)
    requires
        params.text_at("sessionId"@) == Some(turn.session_id),
        sessions.contains_key(turn.session_id),
    ensures
        ({
            let cancelled = after_cancel(sessions, params);
            &&& round_begun(turn, cancelled).step is Finished
            &&& turn.round < MAX_TOOL_ROUNDS ==> round_begun(turn, cancelled) == finished(
                turn,
                cancelled,
                Ending::Cancelled,
            )
        }),
{
}

/// A new prompt is worked on, even if an earlier one was cancelled: the model is asked, and what
/// the user said is the latest message that it gets, behind the session's system prompt.
pub proof fn the_model_gets_the_prompt(
    config: LlmConfigView,
    sessions: Sessions,
    id: JsonView,
    params: JsonView,
    llm_tool_id: Seq<char>,
    now: nat,
)
    requires
        params.text_at("sessionId"@) is Some,
        sessions.contains_key(params.text_at("sessionId"@)->0),
        sessions[params.text_at("sessionId"@)->0].messages.len() > 0,
    ensures
        ({
            let session = sessions[params.text_at("sessionId"@)->0];
            let begun = prompt_effect(config, sessions, id, params, llm_tool_id, now);
            &&& begun.turn is Some
            &&& round_begun(begun.turn->0, begun.sessions).step matches TurnStepView::AskModel {
                messages,
                ..
            } && messages.len() > 1 && messages.last() == chat_message(
                "user"@,
                user_text_of(params),
            ) && messages[0] == augmented(session.messages, session.mode)[0]
        }),
{
    let sid = params.text_at("sessionId"@)->0;
    let history = sessions[sid].messages.push(chat_message("user"@, user_text_of(params)));
    let kept = trimmed_history(history, config.max_history_turns);
    if config.max_history_turns > 0 && history.len() > 2 * config.max_history_turns + 1 {
        assert(kept.last() == history.last());
    }
}

/// A prompt leaves at most the configured number of turns in the history, if one is configured,
/// and never loses the system prompt.
pub proof fn prompts_bound_the_history(
    session: SessionView,
    text: Seq<char>,
    max_turns: nat,
    now: nat,
)
    ensures
        max_turns > 0 ==> prompted(session, text, max_turns, now).messages.len() <= 2 * max_turns
            + 1,
        session.messages.len() > 0 ==> prompted(session, text, max_turns, now).messages[0]
            == session.messages[0],
{
}

/// What a turn is told: the sessions as they are by then, what happened, and an id for the tool
/// call that may begin.
pub struct TurnInput {
    pub sessions: Sessions,
    pub event: TurnEventView,
    pub tool_call_id: Seq<char>,
}

/// Whether an event is one that a step waits for.
pub open spec fn fits(step: TurnStepView, event: TurnEventView) -> bool {
    match step {
        TurnStepView::AskModel { .. } => event is Responded || event is Unreachable,
        TurnStepView::RunTool { .. } => event is ToolDone,
        TurnStepView::Finished => true,
    }
}

/// How a turn stands after `n` events, and what was sent by then.
pub open spec fn course(
    native: bool,
    first: TurnEffect,
    inputs: spec_fn(nat) -> TurnInput,
    n: nat,
) -> TurnEffect
    decreases n,
{
    if n == 0 {
        first
    } else {
        let before = course(native, first, inputs, (n - 1) as nat);
        let input = inputs((n - 1) as nat);
        match turn_in(before.step) {
            Some(turn) => after_sending(
                before.sent,
                turn_effect(native, input.sessions, turn, input.event, input.tool_call_id),
            ),
            None => before,
        }
    }
}

/// Whether each event is one that the turn waited for.
pub open spec fn well_run(
    native: bool,
    first: TurnEffect,
    inputs: spec_fn(nat) -> TurnInput,
) -> bool {
    forall|n: nat| fits((#[trigger] course(native, first, inputs, n)).step, inputs(n).event)
}

/// How often the model was asked in the first `n` events.
pub open spec fn questions(
    native: bool,
    first: TurnEffect,
    inputs: spec_fn(nat) -> TurnInput,
    n: nat,
) -> nat
    decreases n,
{
    let now: nat = if course(native, first, inputs, n).step is AskModel {
        1
    } else {
        0
    };
    if n == 0 {
        now
    } else {
        questions(native, first, inputs, (n - 1) as nat) + now
    }
}

/// What was sent by the time that a turn has come to event `n`.
proof fn lemma_course_messages(
    native: bool,
    sessions: Sessions,
    turn: TurnView,
    inputs: spec_fn(nat) -> TurnInput,
    n: nat,
)
    ensures
        ({
            let now = course(native, round_begun(turn, sessions), inputs, n);
            match turn_in(now.step) {
                Some(next) => same_turn(turn, next) && all_updates(now.sent, turn.session_id),
                None => ends_with_answer(now.sent, turn.id, turn.session_id),
            }
        }),
    decreases n,
{
    let first = round_begun(turn, sessions);
    if n == 0 {
        lemma_round_messages(turn, sessions);
    } else {
        let before = course(native, first, inputs, (n - 1) as nat);
        let input = inputs((n - 1) as nat);
        lemma_course_messages(native, sessions, turn, inputs, (n - 1) as nat);
        if let Some(t) = turn_in(before.step) {
            the_answer_comes_last(native, input.sessions, t, input.event, input.tool_call_id);
            lemma_more_updates(
                before.sent,
                turn_effect(native, input.sessions, t, input.event, input.tool_call_id).sent,
                turn.id,
                turn.session_id,
            );
        }
    }
}

/// From the request on, a prompt in an open session brings the client updates of that session and
/// then, as the turn ends, the answer to its request, once. This holds whatever else happens to
/// the sessions meanwhile.
pub proof fn every_prompt_is_answered_once(
    config: LlmConfigView,
    sessions: Sessions,
    id: JsonView,
    params: JsonView,
    llm_tool_id: Seq<char>,
    now: nat,
    later: Sessions,
    inputs: spec_fn(nat) -> TurnInput,
    n: nat,
)
    requires
        params.text_at("sessionId"@) is Some,
        sessions.contains_key(params.text_at("sessionId"@)->0),
    ensures
        ({
            let sid = params.text_at("sessionId"@)->0;
            let begun = prompt_effect(config, sessions, id, params, llm_tool_id, now);
            let first = round_begun(begun.turn->0, later);
            let reached = course(config.ollama_native, first, inputs, n);
            let sent = begun.sent + reached.sent;
            &&& begun.turn is Some
            &&& match turn_in(reached.step) {
                Some(next) => next.id == id && next.session_id == sid && all_updates(sent, sid),
                None => ends_with_answer(sent, id, sid),
            }
        }),
{
    let sid = params.text_at("sessionId"@)->0;
    let begun = prompt_effect(config, sessions, id, params, llm_tool_id, now);
    let turn = begun.turn->0;
    lemma_all_updates(sid);
    lemma_course_messages(config.ollama_native, later, turn, inputs, n);
    lemma_more_updates(
        begun.sent,
        course(config.ollama_native, round_begun(turn, later), inputs, n).sent,
        id,
        sid,
    );
}

/// The model is asked at most [`MAX_TOOL_ROUNDS`] times in a turn, whatever it responds.
pub proof fn the_model_is_asked_a_few_times(
    native: bool,
    sessions: Sessions,
    turn: TurnView,
    inputs: spec_fn(nat) -> TurnInput,
    n: nat,
)
    requires
        turn.round == 0,
        well_run(native, round_begun(turn, sessions), inputs),
    ensures
        questions(native, round_begun(turn, sessions), inputs, n) <= MAX_TOOL_ROUNDS,
{
    lemma_questions(native, sessions, turn, inputs, n);
}

/// How often the model was asked, as the rounds count it.
proof fn lemma_questions(
    native: bool,
    sessions: Sessions,
    turn: TurnView,
    inputs: spec_fn(nat) -> TurnInput,
    n: nat,
)
    requires
        turn.round == 0,
        well_run(native, round_begun(turn, sessions), inputs),
    ensures
        ({
            let asked = questions(native, round_begun(turn, sessions), inputs, n);
            match turn_in(course(native, round_begun(turn, sessions), inputs, n).step) {
                Some(t) => asked == t.round + 1 && asked <= MAX_TOOL_ROUNDS,
                None => asked <= MAX_TOOL_ROUNDS,
            }
        }),
    decreases n,
{
    if n > 0 {
        let first = round_begun(turn, sessions);
        lemma_questions(native, sessions, turn, inputs, (n - 1) as nat);
        let before = course(native, first, inputs, (n - 1) as nat);
        assert(fits(before.step, inputs((n - 1) as nat).event));
    }
}

/// Every turn ends, as long as each request to the model and each tool comes to some end.
pub proof fn every_turn_ends(
    native: bool,
    sessions: Sessions,
    turn: TurnView,
    inputs: spec_fn(nat) -> TurnInput,
)
    requires
        turn.round == 0,
        well_run(native, round_begun(turn, sessions), inputs),
    ensures
        exists|n: nat|
            (#[trigger] course(native, round_begun(turn, sessions), inputs, n)).step is Finished,
{
    lemma_ends(native, sessions, turn, inputs, 0);
}

/// What falls with every question that is answered and with every round that ends.
spec fn rounds_left(step: TurnStepView) -> int {
    match step {
        TurnStepView::AskModel { turn, .. } => 2 * (MAX_TOOL_ROUNDS - turn.round) + 1,
        TurnStepView::RunTool { turn, .. } => 2 * (MAX_TOOL_ROUNDS - turn.round),
        TurnStepView::Finished => 0,
    }
}

/// How many tool calls of the round have not begun; this falls with every tool that is run.
spec fn calls_left(step: TurnStepView) -> nat {
    match turn_in(step) {
        Some(turn) => turn.calls.len(),
        None => 0,
    }
}

/// A turn that has come to event `n` ends.
proof fn lemma_ends(
    native: bool,
    sessions: Sessions,
    turn: TurnView,
    inputs: spec_fn(nat) -> TurnInput,
    n: nat,
)
    requires
        turn.round == 0,
        well_run(native, round_begun(turn, sessions), inputs),
    ensures
        exists|m: nat|
            (#[trigger] course(native, round_begun(turn, sessions), inputs, m)).step is Finished,
    decreases
            rounds_left(course(native, round_begun(turn, sessions), inputs, n).step),
            calls_left(course(native, round_begun(turn, sessions), inputs, n).step),
{
    let first = round_begun(turn, sessions);
    let now = course(native, first, inputs, n);
    if !(now.step is Finished) {
        lemma_questions(native, sessions, turn, inputs, n);
        lemma_questions(native, sessions, turn, inputs, n + 1);
        assert(fits(now.step, inputs(n).event));
        let next = course(native, first, inputs, n + 1);
        lemma_ends(native, sessions, turn, inputs, n + 1);
    }
}

/// The tool calls of a response are all that it has, in their order: in Ollama's format, or else in
/// OpenAI's.
pub proof fn all_tool_calls_are_found(response: JsonView)
    ensures
        ({
            let ollama = items_of(field_of(response.get("message"@), "tool_calls"@));
            let openai = items_of(
                field_of(
                    field_of(item_of(response.get("choices"@), 0), "message"@),
                    "tool_calls"@,
                ),
            );
            &&& ollama is Some ==> tool_calls_of(response) == ollama->0
            &&& ollama is None && openai is Some ==> tool_calls_of(response) == openai->0
            &&& ollama is None && openai is None ==> tool_calls_of(response).len() == 0
        }),
{
}

/// The text of a response is all that it has: in Ollama's format where there is any, or else in
/// OpenAI's.
pub proof fn all_text_is_found(response: JsonView)
    ensures
        ({
            let ollama = text_of(field_of(response.get("message"@), "content"@));
            let openai = text_of(
                field_of(field_of(item_of(response.get("choices"@), 0), "message"@), "content"@),
            );
            &&& ollama is Some && ollama->0.len() > 0 ==> response_text_of(response) == ollama->0
            &&& (ollama is None || ollama->0.len() == 0) && openai is Some ==> response_text_of(
                response,
            ) == openai->0
            &&& (ollama is None || ollama->0.len() == 0) && openai is None ==> response_text_of(
                response,
            ).len() == 0
        }),
{
}

/// A tool is called by the name that the model gives, with the arguments that it gives: as JSON
/// where their text is that, and else as they are.
pub proof fn tools_are_called_as_the_model_says(call: JsonView, read: Option<JsonView>)
    ensures
        ({
            let name = text_of(field_of(call.get("function"@), "name"@));
            let given = field_of(call.get("function"@), "arguments"@);
            &&& name is Some ==> tool_name_of(call) == name->0
            &&& name is None ==> tool_name_of(call) == "unknown"@
            &&& text_of(given) is Some ==> arguments_text_of(call) == text_of(given)->0
            &&& text_of(given) is None ==> arguments_text_of(call) == "{}"@
            &&& read is Some ==> arguments_of(call, read) == read->0
            &&& read is None && given is Some ==> arguments_of(call, read) == given->0
            &&& read is None && given is None ==> arguments_of(call, read) is Null
        }),
{
}

/// Of the blocks of a prompt, the texts of the text blocks are taken, each in full and in their
/// order, and no others.
pub proof fn text_blocks_come_in_their_order(
    a: Seq<JsonView>,
    b: Seq<JsonView>,
    block: JsonView,
)
    ensures
        text_blocks(Seq::empty()) == Seq::<Seq<char>>::empty(),
        block.text_at("type"@) == Some("text"@) && block.text_at("text"@) is Some ==> text_blocks(
            seq![block],
        ) == seq![block.text_at("text"@)->0],
        block.text_at("type"@) != Some("text"@) || block.text_at("text"@) is None ==> text_blocks(
            seq![block],
        ) == Seq::<Seq<char>>::empty(),
        text_blocks(a + b) == text_blocks(a) + text_blocks(b),
    decreases b.len(),
{
    assert(seq![block].drop_last() == Seq::<JsonView>::empty());
    assert(text_blocks(Seq::<JsonView>::empty()) == Seq::<Seq<char>>::empty());
    if block.text_at("type"@) == Some("text"@) && block.text_at("text"@) is Some {
        assert(text_blocks(seq![block]) == seq![block.text_at("text"@)->0]);
    }
    if b.len() == 0 {
        assert(a + b == a);
        assert(text_blocks(a) + text_blocks(b) == text_blocks(a));
    } else {
        text_blocks_come_in_their_order(a, b.drop_last(), block);
        assert((a + b).drop_last() == a + b.drop_last());
        assert((a + b).last() == b.last());
        if let Some(text) = b.last().text_at("text"@) {
            assert((text_blocks(a) + text_blocks(b.drop_last())).push(text) == text_blocks(a)
                + text_blocks(b.drop_last()).push(text));
        }
    }
}

/// What the user said is the texts of the blocks, on lines of their own.
pub proof fn the_user_said_all_text_blocks(params: JsonView)
    ensures
        items_of(params.get("prompt"@)) is Some ==> user_text_of(params) == joined(
            text_blocks(items_of(params.get("prompt"@))->0),
            "\n"@,
        ),
        items_of(params.get("prompt"@)) is None ==> user_text_of(params).len() == 0,
{
}

/// The prompt of a user goes to the end of the session's history, in full, before the history is
/// cut. The session is in use and not cancelled from then on, and nothing else of it changes.
pub proof fn prompts_are_added_to_the_history(
    session: SessionView,
    text: Seq<char>,
    max_turns: nat,
    now: nat,
)
    ensures
        ({
            let after = prompted(session, text, max_turns, now);
            exists|message: JsonView|
                {
                    let history = #[trigger] (session.messages + seq![message]);
                    &&& message.text_at("role"@) == Some("user"@)
                    &&& message.text_at("content"@) == Some(text)
                    &&& max_turns == 0 ==> after.messages == history
                    &&& max_turns > 0 ==> after.messages == trimmed_history(history, max_turns)
                }
        }),
        prompted(session, text, max_turns, now).last_active == now,
        !prompted(session, text, max_turns, now).cancelled,
        prompted(session, text, max_turns, now).mode == session.mode,
        prompted(session, text, max_turns, now).model == session.model,
        prompted(session, text, max_turns, now).working_dir == session.working_dir,
{
    let message = chat_message("user"@, text);
    messages_hold_what_was_said("user"@, text);
    assert(session.messages.push(message) == session.messages + seq![message]);
}

/// A prompt in an open session begins a turn for the request, with the session's mode and model, and
/// tells the client so.
pub proof fn prompts_begin_turns(
    config: LlmConfigView,
    sessions: Sessions,
    id: JsonView,
    params: JsonView,
    llm_tool_id: Seq<char>,
    now: nat,
    sid: Seq<char>,
)
    requires
        params.text_at("sessionId"@) == Some(sid),
        sessions.contains_key(sid),
    ensures
        ({
            let begun = prompt_effect(config, sessions, id, params, llm_tool_id, now);
            let turn = begun.turn->0;
            let shown = update_in(begun.sent[1]);
            &&& begun.turn is Some
            &&& turn.id == id
            &&& turn.session_id == sid
            &&& turn.mode == sessions[sid].mode
            &&& turn.model == sessions[sid].model
            &&& turn.llm_tool_id == llm_tool_id
            &&& turn.round == 0
            &&& begun.sessions == sessions.insert(
                sid,
                prompted(sessions[sid], user_text_of(params), config.max_history_turns, now),
            )
            &&& begun.sent.len() == 2
            &&& text_of(field_of(update_in(begun.sent[0]), "sessionUpdate"@)) == Some(
                "agent_thought_chunk"@,
            )
            &&& text_of(field_of(shown, "sessionUpdate"@)) == Some("tool_call"@)
            &&& text_of(field_of(shown, "toolCallId"@)) == Some(llm_tool_id)
            &&& text_of(field_of(shown, "title"@)) == Some("LLM chat"@)
            &&& text_of(field_of(shown, "kind"@)) == Some("think"@)
        }),
{
    updates_hold_what_they_tell(sid, llm_tool_id, "LLM chat"@, tool_kind("llm_chat"@));
    tool_kinds_follow_from_names("llm_chat"@);
}

/// A round asks the model for what comes after the session's history, all of it, and has the tools
/// work in the session's directory. It does so in each of the five rounds, unless the session is
/// cancelled.
pub proof fn rounds_ask_with_the_whole_history(turn: TurnView, sessions: Sessions)
    ensures
        ({
            let effect = round_begun(turn, sessions);
            let open = sessions.contains_key(turn.session_id);
            let session = sessions[turn.session_id];
            let asks = turn.round < 5 && !(open && session.cancelled);
            &&& effect.sessions == sessions
            &&& asks <==> effect.step is AskModel
            &&& turn.round >= 5 ==> effect == finished(turn, sessions, Ending::Completed)
            &&& turn.round < 5 && !asks ==> effect == finished(turn, sessions, Ending::Cancelled)
            &&& asks ==> effect.sent.len() == 0
            &&& asks && open ==> effect.step->messages == augmented(session.messages, turn.mode)
                && effect.step->AskModel_turn.working_dir == session.working_dir
            &&& asks && !open ==> effect.step->messages.len() == 0
            &&& asks ==> effect.step->AskModel_turn.round == turn.round
                && effect.step->AskModel_turn.calls == turn.calls && same_turn(
                turn,
                effect.step->AskModel_turn,
            )
        }),
{
}

/// The result of a tool reaches the model in full: it goes to the end of the session's history as
/// the content of a message of the tool, and where the model is asked next, that message is the
/// last of those that it gets.
pub proof fn tool_results_reach_the_model(
    native: bool,
    sessions: Sessions,
    turn: TurnView,
    result: Seq<char>,
    tool_call_id: Seq<char>,
)
    requires
        sessions.contains_key(turn.session_id),
    ensures
        ({
            let event = TurnEventView::ToolDone { result };
            let effect = turn_effect(native, sessions, turn, event, tool_call_id);
            let before = sessions[turn.session_id];
            let after = effect.sessions[turn.session_id];
            let message = after.messages.last();
            &&& after.messages.len() == before.messages.len() + 1
            &&& after.messages.drop_last() == before.messages
            &&& message.text_at("role"@) == Some("tool"@)
            &&& message.text_at("content"@) == Some(result)
            &&& effect.step is AskModel ==> effect.step->messages.len() == after.messages.len()
                && effect.step->messages.last() == message
        }),
{
    let message = chat_message("tool"@, result);
    let before = sessions[turn.session_id];
    let history = before.messages.push(message);
    messages_hold_what_was_said("tool"@, result);
    assert(history.drop_last() == before.messages);
    the_model_gets_the_conversation(history, turn.mode);
    reveal_strlit("tool");
    reveal_strlit("system");
    assert("tool"@.len() == 4);
    assert("system"@.len() == 6);
    let after = with_message(sessions, turn.session_id, message);
    assert(after[turn.session_id].messages == history);
    rounds_ask_with_the_whole_history(TurnView { round: turn.round + 1, ..turn }, after);
    if history.len() == 1 {
        assert(history[0] == message);
    }
}

/// When a tool is done, the client is told so, and the turn goes on: with the next call of the round
/// where there is one, and else with the next round.
pub proof fn tools_are_followed_by_what_is_next(
    native: bool,
    sessions: Sessions,
    turn: TurnView,
    result: Seq<char>,
    tool_call_id: Seq<char>,
)
    ensures
        ({
            let event = TurnEventView::ToolDone { result };
            let effect = turn_effect(native, sessions, turn, event, tool_call_id);
            let done = update_in(effect.sent[0]);
            let cancelled = sessions.contains_key(turn.session_id)
                && sessions[turn.session_id].cancelled;
            &&& effect.sent.len() > 0
            &&& text_of(field_of(done, "sessionUpdate"@)) == Some("tool_call_update"@)
            &&& text_of(field_of(done, "toolCallId"@)) == Some(turn.tool_call_id)
            &&& text_of(field_of(done, "status"@)) == Some("completed"@)
            &&& turn.calls.len() > 0 ==> begins_call(
                effect,
                turn,
                turn.calls,
                effect.sent.drop_first(),
                tool_call_id,
            )
            &&& turn.calls.len() == 0 ==> {
                let next = round_begun(
                    TurnView { round: turn.round + 1, ..turn },
                    effect.sessions,
                );
                effect.step == next.step && effect.sent.drop_first() == next.sent
            }
            &&& turn.calls.len() == 0 && turn.round + 1 < 5 && !cancelled
                ==> effect.step is AskModel && effect.step->AskModel_turn.round == turn.round + 1
            &&& turn.calls.len() == 0 && (turn.round + 1 >= 5 || cancelled)
                ==> effect.step is Finished
        }),
{
    updates_hold_what_they_tell(
        turn.session_id,
        turn.tool_call_id,
        "completed"@,
        Seq::empty(),
    );
    let after = with_message(sessions, turn.session_id, chat_message("tool"@, result));
    let effect = turn_effect(
        native,
        sessions,
        turn,
        TurnEventView::ToolDone { result },
        tool_call_id,
    );
    let begun = call_begun(turn, after, tool_call_id);
    assert(effect.sent.drop_first() == begun.sent);
    if turn.calls.len() > 0 {
        lemma_call_begins(turn, after, tool_call_id);
    } else {
        rounds_ask_with_the_whole_history(TurnView { round: turn.round + 1, ..turn }, after);
    }
}

/// Whether the first of some calls begins: its tool is to be run by the name and with the arguments
/// that the call gives, the client is told of it under the id, and the other calls are left.
pub open spec fn begins_call(
    effect: TurnEffect,
    turn: TurnView,
    calls: Seq<JsonView>,
    sent: Seq<JsonView>,
    tool_call_id: Seq<char>,
) -> bool {
    let shown = update_in(sent[0]);
    let next = effect.step->RunTool_turn;
    &&& effect.step is RunTool
    &&& effect.step->name == tool_name_of(calls[0])
    &&& effect.step->args == arguments_of(calls[0], json_read(arguments_text_of(calls[0])))
    &&& next.calls == calls.skip(1)
    &&& next.round == turn.round
    &&& next.working_dir == turn.working_dir
    &&& next.tool_call_id == tool_call_id
    &&& same_turn(turn, next)
    &&& sent.len() == 1
    &&& text_of(field_of(shown, "sessionUpdate"@)) == Some("tool_call"@)
    &&& text_of(field_of(shown, "toolCallId"@)) == Some(tool_call_id)
    &&& text_of(field_of(shown, "title"@)) == Some(tool_name_of(calls[0]))
    &&& text_of(field_of(shown, "kind"@)) == Some(tool_kind(tool_name_of(calls[0])))
}

/// How a call begins.
proof fn lemma_call_begins(turn: TurnView, sessions: Sessions, tool_call_id: Seq<char>)
    requires
        turn.calls.len() > 0,
    ensures
        begins_call(
            call_begun(turn, sessions, tool_call_id),
            turn,
            turn.calls,
            call_begun(turn, sessions, tool_call_id).sent,
            tool_call_id,
        ),
{
    let name = tool_name_of(turn.calls[0]);
    updates_hold_what_they_tell(turn.session_id, tool_call_id, name, tool_kind(name));
    assert(turn.calls.drop_first() == turn.calls.skip(1));
}

/// Where the model calls for tools, its message goes to the end of the history as it came, and the
/// first of the tools is to be run, with the others behind it.
pub proof fn calls_for_tools_are_kept_and_followed(
    native: bool,
    sessions: Sessions,
    turn: TurnView,
    response: JsonView,
    tool_call_id: Seq<char>,
)
    requires
        tool_calls_of(response).len() > 0,
    ensures
        ({
            let calls = tool_calls_of(response);
            let event = TurnEventView::Responded { response };
            let effect = turn_effect(native, sessions, turn, event, tool_call_id);
            let before = sessions[turn.session_id];
            let after = effect.sessions[turn.session_id];
            let message = after.messages.last();
            let given = field_of(item_of(response.get("choices"@), 0), "message"@);
            &&& begins_call(effect, turn, calls, effect.sent, tool_call_id)
            &&& sessions.contains_key(turn.session_id) ==> {
                &&& after.messages.len() == before.messages.len() + 1
                &&& after.messages.drop_last() == before.messages
                &&& !native && given is Some ==> message == given->0
                &&& !native && given is None ==> message is Null
                &&& native ==> message.text_at("role"@) == Some("assistant"@)
                    && message.text_at("content"@) == Some(""@) && items_of(
                    message.get("tool_calls"@),
                ) == Some(calls)
            }
        }),
{
    let calls = tool_calls_of(response);
    let message = calling_message(native, calls, response);
    let after = with_message(sessions, turn.session_id, message);
    lemma_call_begins(TurnView { calls, ..turn }, after, tool_call_id);
    reveal_strlit("role");
    reveal_strlit("content");
    reveal_strlit("tool_calls");
    assert("role"@.len() == 4);
    assert("content"@.len() == 7);
    assert("tool_calls"@.len() == 10);
    if sessions.contains_key(turn.session_id) {
        let history = sessions[turn.session_id].messages;
        assert(history.push(message).drop_last() == history);
    }
}

/// Where the model answers with text, the client is shown all of it, it goes to the end of the
/// history in full, and the turn is completed. An empty answer completes the turn and leaves the
/// history as it is.
pub proof fn answers_are_shown_and_kept(
    native: bool,
    sessions: Sessions,
    turn: TurnView,
    response: JsonView,
    tool_call_id: Seq<char>,
)
    requires
        tool_calls_of(response).len() == 0,
    ensures
        ({
            let text = response_text_of(response);
            let event = TurnEventView::Responded { response };
            let effect = turn_effect(native, sessions, turn, event, tool_call_id);
            let before = sessions[turn.session_id];
            let after = effect.sessions[turn.session_id];
            let message = after.messages.last();
            let shown = update_in(effect.sent[0]);
            &&& effect.step is Finished
            &&& effect.sent.skip(effect.sent.len() - 2) == finished(
                turn,
                sessions,
                Ending::Completed,
            ).sent
            &&& text.len() == 0 ==> effect.sent.len() == 2 && effect.sessions == sessions
            &&& text.len() > 0 ==> {
                &&& effect.sent.len() == 3
                &&& text_of(field_of(shown, "sessionUpdate"@)) == Some("agent_message_chunk"@)
                &&& text_of(field_of(field_of(shown, "content"@), "text"@)) == Some(text)
                &&& sessions.contains_key(turn.session_id) ==> {
                    &&& after.messages.len() == before.messages.len() + 1
                    &&& after.messages.drop_last() == before.messages
                    &&& message.text_at("role"@) == Some("assistant"@)
                    &&& message.text_at("content"@) == Some(text)
                }
            }
        }),
{
    let text = response_text_of(response);
    let message = chat_message("assistant"@, text);
    updates_hold_what_they_tell(turn.session_id, Seq::empty(), text, Seq::empty());
    messages_hold_what_was_said("assistant"@, text);
    if sessions.contains_key(turn.session_id) {
        let history = sessions[turn.session_id].messages;
        assert(history.push(message).drop_last() == history);
    }
}

/// A failure is shown to the client with its reason in full.
pub proof fn failures_are_shown_in_full(
    native: bool,
    sessions: Sessions,
    turn: TurnView,
    reason: Seq<char>,
    tool_call_id: Seq<char>,
)
    ensures
        ({
            let event = TurnEventView::Unreachable { reason };
            let effect = turn_effect(native, sessions, turn, event, tool_call_id);
            let shown = update_in(effect.sent[0]);
            &&& effect.sent.len() == 3
            &&& effect.step is Finished
            &&& effect.sessions == sessions
            &&& effect.sent.skip(1) == finished(turn, sessions, Ending::Failed).sent
            &&& text_of(field_of(shown, "sessionUpdate"@)) == Some("agent_message_chunk"@)
            &&& text_of(field_of(field_of(shown, "content"@), "text"@)) == Some(
                "\n\n**Error:** "@ + ("LLM communication error: "@ + reason) + "\n"@,
            )
        }),
{
    updates_hold_what_they_tell(turn.session_id, Seq::empty(), failure_text(reason), Seq::empty());
}

/// A turn that ends tells the client so under the id of its conversation with the model, and the
/// answer says how it ended.
pub proof fn endings_are_told(turn: TurnView, sessions: Sessions, ending: Ending)
    ensures
        ({
            let effect = finished(turn, sessions, ending);
            let shown = update_in(effect.sent[0]);
            let result = effect.sent[1].get("result"@);
            &&& effect.step is Finished
            &&& effect.sessions == sessions
            &&& effect.sent.len() == 2
            &&& text_of(field_of(shown, "sessionUpdate"@)) == Some("tool_call_update"@)
            &&& text_of(field_of(shown, "toolCallId"@)) == Some(turn.llm_tool_id)
            &&& answers(effect.sent[1], turn.id)
            &&& ending is Completed ==> text_of(field_of(shown, "status"@)) == Some("completed"@)
                && text_of(field_of(result, "status"@)) == Some("completed"@) && text_of(
                field_of(result, "stopReason"@),
            ) == Some("end_turn"@)
            &&& ending is Failed ==> text_of(field_of(shown, "status"@)) == Some("failed"@)
                && text_of(field_of(result, "status"@)) == Some("failed"@) && text_of(
                field_of(result, "stopReason"@),
            ) == Some("refusal"@)
            &&& ending is Cancelled ==> text_of(field_of(shown, "status"@)) == Some("failed"@)
                && field_of(result, "status"@) is None && text_of(field_of(result, "stopReason"@))
                == Some("cancelled"@)
        }),
{
    updates_hold_what_they_tell(
        turn.session_id,
        turn.llm_tool_id,
        ending.status(),
        Seq::empty(),
    );
    responses_answer_their_request(turn.id, ending.result(), 0, Seq::empty());
    reveal_strlit("status");
    reveal_strlit("stopReason");
    assert("status"@.len() == 6);
    assert("stopReason"@.len() == 10);
}

/// The model is told of all tools that there are, and of none where there are none.
pub proof fn all_tools_are_offered(tools: Seq<JsonView>)
    ensures
        tools.len() == 0 ==> offered_tools(tools) is None,
        tools.len() > 0 ==> offered_tools(tools) == Some(tools),
{
}

/// Turns stand for what their fields hold.
pub proof fn turns_stand_for_their_fields(turn: PromptTurn)
    ensures
        turn@.id == turn.id@,
        turn@.session_id == turn.session_id@,
        turn@.mode == turn.mode@,
        turn@.model == turn.model@,
        turn@.llm_tool_id == turn.llm_tool_id@,
        turn@.working_dir == turn.working_dir@,
        turn@.round == turn.round,
        turn@.calls == turn.calls@.map_values(|j: Json| j@),
        turn@.tool_call_id == turn.tool_call_id@,
        optional_turn(Some(turn)) == Some(turn@),
        optional_turn(None) is None,
{
    assert(items_view(turn.calls@) == turn.calls@.map_values(|j: Json| j@));
}

/// Steps and events stand for what they hold.
pub proof fn steps_stand_for_what_they_hold(step: TurnStep, event: TurnEvent)
    ensures
        ({
            &&& step matches TurnStep::AskModel { turn, messages } ==> step@ == (
            TurnStepView::AskModel { turn: turn@, messages: messages@.map_values(|j: Json| j@) })
            &&& step matches TurnStep::RunTool { turn, name, args } ==> step@ == (
            TurnStepView::RunTool { turn: turn@, name: name@, args: args@ })
            &&& step is Finished ==> step@ is Finished
            &&& event is Begun ==> event@ is Begun
            &&& event matches TurnEvent::Responded { response } ==> event@ == (
            TurnEventView::Responded { response: response@ })
            &&& event matches TurnEvent::Unreachable { reason } ==> event@ == (
            TurnEventView::Unreachable { reason: reason@ })
            &&& event matches TurnEvent::ToolDone { result } ==> event@ == (
            TurnEventView::ToolDone { result: result@ })
        }),
{
    if let TurnStep::AskModel { turn, messages } = step {
        assert(items_view(messages@) == messages@.map_values(|j: Json| j@));
    }
}

} // verus!
