//! Messages to the client: JSON-RPC responses, errors and `session/update` notifications.
//!
//! A message goes to an [`Outbox`], which turns its messages into lines when the transport asks
//! for them.

use vstd::prelude::*;

use crate::json::{
    field_of, items_view, json_text, text_of, Fields, Json, JsonView, NumberView,
};
use crate::protocol::{AcpError, AcpErrorView};
use crate::text::{contains, contains_text, same, texts};

verus! {

/// The messages that wait to be written, oldest first.
#[derive(Debug)]
pub struct Outbox {
    pub messages: Vec<Json>,
}

impl View for Outbox {
    type V = Seq<JsonView>;

    open spec fn view(&self) -> Seq<JsonView> {
        items_view(self.messages@)
    }
}

/// The lines in which messages are written: one message to a line.
pub open spec fn lines_of(messages: Seq<JsonView>) -> Seq<Seq<char>> {
    messages.map_values(|m: JsonView| json_text(m).push('\n'))
}

impl Outbox {
    /// No messages.
    pub fn new() -> (r: Outbox)
        ensures
            r@ == Seq::<JsonView>::empty(),
    {
        let r = Outbox { messages: Vec::new() };
        assert(r@ == Seq::<JsonView>::empty());
        r
    }

    /// Takes the waiting messages out, each as a line of its own: the line break at its end is
    /// the only one in it.
    pub fn take_lines(&mut self) -> (r: Vec<String>)
        ensures
            texts(r@) == lines_of(old(self)@),
            forall|i: int|
                0 <= i < r@.len() ==> (#[trigger] r@[i])@.last() == '\n'
                    && !r@[i]@.drop_last().contains('\n'),
            final(self)@ == Seq::<JsonView>::empty(),
    {
        let mut lines: Vec<String> = Vec::new();
        let mut i: usize = 0;
        while i < self.messages.len()
            invariant
                self.messages@ == old(self).messages@,
                i <= self.messages@.len(),
                lines@.len() == i,
                forall|k: int|
                    0 <= k < i ==> (#[trigger] lines@[k])@ == json_text(
                        self.messages@[k]@,
                    ).push('\n') && !json_text(self.messages@[k]@).contains('\n'),
            decreases self.messages@.len() - i,
        {
            let mut line: String = self.messages[i].render();
            line.push('\n');
            lines.push(line);
            i += 1;
        }
        proof {
            assert(texts(lines@) == lines_of(old(self)@));
            assert forall|k: int| 0 <= k < lines@.len() implies (#[trigger] lines@[k])@.last()
                == '\n' && !lines@[k]@.drop_last().contains('\n') by {
                assert(lines@[k]@.drop_last() == json_text(self.messages@[k]@));
            }
        }
        self.messages.clear();
        assert(self@ == Seq::<JsonView>::empty());
        lines
    }
}

/// A JSON-RPC response with a result.
pub open spec fn response_message(id: JsonView, result: JsonView) -> JsonView {
    JsonView::Object(
        map!["jsonrpc"@ => JsonView::Text("2.0"@), "id"@ => id, "result"@ => result],
    )
}

/// A JSON-RPC response with an error.
pub open spec fn error_message(id: JsonView, code: int, message: Seq<char>) -> JsonView {
    JsonView::Object(
        map![
            "jsonrpc"@ => JsonView::Text("2.0"@),
            "id"@ => id,
            "error"@ => JsonView::Object(
                map![
                    "code"@ => JsonView::Number(NumberView::Integer(code)),
                    "message"@ => JsonView::Text(message),
                ],
            ),
        ],
    )
}

/// The response that reports an [`AcpError`].
pub open spec fn failure_message(id: JsonView, error: AcpErrorView) -> JsonView {
    error_message(id, error.code(), error.message())
}

/// A JSON-RPC notification.
pub open spec fn notification_message(method: Seq<char>, params: JsonView) -> JsonView {
    JsonView::Object(
        map![
            "jsonrpc"@ => JsonView::Text("2.0"@),
            "method"@ => JsonView::Text(method),
            "params"@ => params,
        ],
    )
}

/// A `session/update` notification.
pub open spec fn session_update_message(session_id: Seq<char>, update: JsonView) -> JsonView {
    notification_message(
        "session/update"@,
        JsonView::Object(
            map!["sessionId"@ => JsonView::Text(session_id), "update"@ => update],
        ),
    )
}

/// A block of text, as updates carry it.
pub open spec fn text_block(text: Seq<char>) -> JsonView {
    JsonView::Object(
        map!["type"@ => JsonView::Text("text"@), "text"@ => JsonView::Text(text)],
    )
}

/// The update that shows text of the agent.
pub open spec fn text_message(session_id: Seq<char>, text: Seq<char>) -> JsonView {
    session_update_message(
        session_id,
        JsonView::Object(
            map![
                "sessionUpdate"@ => JsonView::Text("agent_message_chunk"@),
                "content"@ => text_block(text),
            ],
        ),
    )
}

/// The update that shows that the agent is thinking.
pub open spec fn thinking_message(session_id: Seq<char>) -> JsonView {
    session_update_message(
        session_id,
        JsonView::Object(
            map![
                "sessionUpdate"@ => JsonView::Text("agent_thought_chunk"@),
                "content"@ => text_block(""@),
            ],
        ),
    )
}

/// The update that announces a tool call.
pub open spec fn tool_start_message(
    session_id: Seq<char>,
    tool_call_id: Seq<char>,
    title: Seq<char>,
    kind: Seq<char>,
) -> JsonView {
    session_update_message(
        session_id,
        JsonView::Object(
            map![
                "sessionUpdate"@ => JsonView::Text("tool_call"@),
                "toolCallId"@ => JsonView::Text(tool_call_id),
                "title"@ => JsonView::Text(title),
                "kind"@ => JsonView::Text(kind),
            ],
        ),
    )
}

/// The update that reports the state of a tool call.
pub open spec fn tool_done_message(
    session_id: Seq<char>,
    tool_call_id: Seq<char>,
    status: Seq<char>,
) -> JsonView {
    session_update_message(
        session_id,
        JsonView::Object(
            map![
                "sessionUpdate"@ => JsonView::Text("tool_call_update"@),
                "toolCallId"@ => JsonView::Text(tool_call_id),
                "status"@ => JsonView::Text(status),
            ],
        ),
    )
}

/// The kind of a tool: what is fixed for the built-in tools, else what the name suggests.
pub open spec fn tool_kind(name: Seq<char>) -> Seq<char> {
    if name == "read_file"@ || name == "list_dir"@ {
        "read"@
    } else if name == "search_code"@ {
        "search"@
    } else if name == "llm_chat"@ {
        "think"@
    } else if contains_text(name, "search"@) {
        "search"@
    } else if contains_text(name, "read"@) {
        "read"@
    } else {
        "other"@
    }
}

/// Queues a message.
pub fn send(out: &mut Outbox, obj: Json)
    ensures
        final(out)@ == old(out)@.push(obj@),
{
    out.messages.push(obj);
    assert(out@ == old(out)@.push(obj@));
}

/// Queues a response with a result.
pub fn send_response(out: &mut Outbox, id: &Json, result: Json)
    ensures
        final(out)@ == old(out)@.push(response_message(id@, result@)),
{
    let fields: Fields = Fields::new().with("jsonrpc", Json::text("2.0")).with(
        "id",
        id.clone(),
    ).with("result", result);
    send(out, Json::Object(fields));
}

/// Queues a response with an error.
pub fn send_error(out: &mut Outbox, id: &Json, code: i64, message: &str)
    ensures
        final(out)@ == old(out)@.push(error_message(id@, code as int, message@)),
{
    let error: Fields = Fields::new().with("code", Json::signed(code)).with(
        "message",
        Json::text(message),
    );
    let fields: Fields = Fields::new().with("jsonrpc", Json::text("2.0")).with(
        "id",
        id.clone(),
    ).with("error", Json::Object(error));
    send(out, Json::Object(fields));
}

/// Queues the response that reports an [`AcpError`].
pub fn send_failure(out: &mut Outbox, id: &Json, error: &AcpError)
    ensures
        final(out)@ == old(out)@.push(failure_message(id@, error@)),
{
    let message: String = error.to_string();
    send_error(out, id, error.code(), message.as_str());
}

/// Queues a notification.
pub fn send_notification(out: &mut Outbox, method: &str, params: Json)
    ensures
        final(out)@ == old(out)@.push(notification_message(method@, params@)),
{
    let fields: Fields = Fields::new().with("jsonrpc", Json::text("2.0")).with(
        "method",
        Json::text(method),
    ).with("params", params);
    send(out, Json::Object(fields));
}

/// Queues a `session/update` notification.
pub fn send_session_update(out: &mut Outbox, session_id: &str, update: Json)
    ensures
        final(out)@ == old(out)@.push(session_update_message(session_id@, update@)),
{
    let params: Fields = Fields::new().with("sessionId", Json::text(session_id)).with(
        "update",
        update,
    );
    send_notification(out, "session/update", Json::Object(params));
}

/// The kind of a tool, for the client to show.
pub fn infer_tool_kind(name: &str) -> (r: &'static str)
    ensures
        r@ == tool_kind(name@),
{
    if same(name, "read_file") || same(name, "list_dir") {
        "read"
    } else if same(name, "search_code") {
        "search"
    } else if same(name, "llm_chat") {
        "think"
    } else if contains(name, "search") {
        "search"
    } else if contains(name, "read") {
        "read"
    } else {
        "other"
    }
}

fn block(text: &str) -> (r: Json)
    ensures
        r@ == text_block(text@),
{
    Json::Object(Fields::new().with("type", Json::text("text")).with("text", Json::text(text)))
}

/// Queues the update that shows text of the agent.
pub fn notify_text(out: &mut Outbox, session_id: &str, text: &str)
    ensures
        final(out)@ == old(out)@.push(text_message(session_id@, text@)),
{
    let update: Fields = Fields::new().with(
        "sessionUpdate",
        Json::text("agent_message_chunk"),
    ).with("content", block(text));
    send_session_update(out, session_id, Json::Object(update));
}

/// Queues the update that shows that the agent is thinking.
pub fn notify_thinking(out: &mut Outbox, session_id: &str)
    ensures
        final(out)@ == old(out)@.push(thinking_message(session_id@)),
{
    let update: Fields = Fields::new().with(
        "sessionUpdate",
        Json::text("agent_thought_chunk"),
    ).with("content", block(""));
    send_session_update(out, session_id, Json::Object(update));
}

/// Queues the update that announces a tool call.
pub fn notify_tool_start(
    out: &mut Outbox,
    session_id: &str,
    tool_call_id: &str,
    title: &str,
    kind: &str,
)
    ensures
        final(out)@ == old(out)@.push(
            tool_start_message(session_id@, tool_call_id@, title@, kind@),
        ),
{
    let update: Fields = Fields::new().with("sessionUpdate", Json::text("tool_call")).with(
        "toolCallId",
        Json::text(tool_call_id),
    ).with("title", Json::text(title)).with("kind", Json::text(kind));
    send_session_update(out, session_id, Json::Object(update));
}

/// Queues the update that reports the state of a tool call: `pending`, `in_progress`,
/// `completed` or `failed`.
pub fn notify_tool_done(out: &mut Outbox, session_id: &str, tool_call_id: &str, status: &str)
    ensures
        final(out)@ == old(out)@.push(tool_done_message(session_id@, tool_call_id@, status@)),
{
    let update: Fields = Fields::new().with("sessionUpdate", Json::text("tool_call_update")).with(
        "toolCallId",
        Json::text(tool_call_id),
    ).with("status", Json::text(status));
    send_session_update(out, session_id, Json::Object(update));
}

/// Whether a message answers the request with the given id.
pub open spec fn answers(message: JsonView, id: JsonView) -> bool {
    message.get("id"@) == Some(id)
}

/// Whether a message is a notification: it carries no id.
pub open spec fn is_notification(message: JsonView) -> bool {
    message.get("id"@) is None
}

/// A notification carries no id, whatever its method and parameters.
pub proof fn notifications_have_no_id(method: Seq<char>, params: JsonView)
    ensures
        is_notification(notification_message(method, params)),
{
    reveal_strlit("id");
    reveal_strlit("jsonrpc");
    reveal_strlit("method");
    reveal_strlit("params");
    assert("id"@.len() == 2);
    assert("jsonrpc"@.len() == 7);
    assert("method"@.len() == 6);
    assert("params"@.len() == 6);
}

/// A response carries the request's id and either a result or an error, never both.
pub proof fn responses_answer_their_request(
    id: JsonView,
    result: JsonView,
    code: int,
    message: Seq<char>,
)
    ensures
        answers(response_message(id, result), id),
        response_message(id, result).get("result"@) == Some(result),
        response_message(id, result).get("error"@) is None,
        answers(error_message(id, code, message), id),
        error_message(id, code, message).get("result"@) is None,
        error_message(id, code, message).get("error"@) is Some,
{
    reveal_strlit("id");
    reveal_strlit("jsonrpc");
    reveal_strlit("result");
    reveal_strlit("error");
    assert("id"@.len() == 2);
    assert("jsonrpc"@.len() == 7);
    assert("result"@.len() == 6);
    assert("error"@.len() == 5);
}

/// Every tool has one of the kinds that clients know.
pub proof fn tool_kinds_are_known(name: Seq<char>)
    ensures
        tool_kind(name) == "read"@ || tool_kind(name) == "search"@ || tool_kind(name) == "think"@
            || tool_kind(name) == "other"@,
{
}

/// Responses, errors and notifications hold what they are to tell, as it is.
pub proof fn messages_hold_what_they_tell(
    id: JsonView,
    result: JsonView,
    code: int,
    text: Seq<char>,
    method: Seq<char>,
    params: JsonView,
)
    ensures
        response_message(id, result).text_at("jsonrpc"@) == Some("2.0"@),
        response_message(id, result).get("id"@) == Some(id),
        response_message(id, result).get("result"@) == Some(result),
        error_message(id, code, text).text_at("jsonrpc"@) == Some("2.0"@),
        error_message(id, code, text).get("id"@) == Some(id),
        field_of(error_message(id, code, text).get("error"@), "code"@) == Some(
            JsonView::Number(NumberView::Integer(code)),
        ),
        text_of(field_of(error_message(id, code, text).get("error"@), "message"@)) == Some(text),
        notification_message(method, params).text_at("jsonrpc"@) == Some("2.0"@),
        notification_message(method, params).text_at("method"@) == Some(method),
        notification_message(method, params).get("params"@) == Some(params),
        response_message(id, result)->Object_0.dom() == set!["jsonrpc"@, "id"@, "result"@],
        error_message(id, code, text)->Object_0.dom() == set!["jsonrpc"@, "id"@, "error"@],
        notification_message(method, params)->Object_0.dom() == set![
            "jsonrpc"@,
            "method"@,
            "params"@,
        ],
{
    reveal_strlit("jsonrpc");
    reveal_strlit("id");
    reveal_strlit("result");
    reveal_strlit("error");
    reveal_strlit("code");
    reveal_strlit("message");
    reveal_strlit("method");
    reveal_strlit("params");
    assert("jsonrpc"@.len() == 7);
    assert("id"@.len() == 2);
    assert("result"@.len() == 6);
    assert("error"@.len() == 5);
    assert("code"@.len() == 4);
    assert("message"@.len() == 7);
    assert("method"@[0] == 'm');
    assert("params"@[0] == 'p');
    assert("params"@.len() == 6);
    assert("method"@.len() == 6);
    assert(response_message(id, result)->Object_0.dom() =~= set!["jsonrpc"@, "id"@, "result"@]);
    assert(error_message(id, code, text)->Object_0.dom() =~= set!["jsonrpc"@, "id"@, "error"@]);
    assert(notification_message(method, params)->Object_0.dom() =~= set![
        "jsonrpc"@,
        "method"@,
        "params"@,
    ]);
}

/// The report of an error has the error's code and message.
pub proof fn failures_tell_the_error(id: JsonView, error: AcpErrorView)
    ensures
        failure_message(id, error).get("id"@) == Some(id),
        field_of(failure_message(id, error).get("error"@), "code"@) == Some(
            JsonView::Number(NumberView::Integer(error.code())),
        ),
        text_of(field_of(failure_message(id, error).get("error"@), "message"@)) == Some(
            error.message(),
        ),
{
    messages_hold_what_they_tell(
        id,
        JsonView::Null,
        error.code(),
        error.message(),
        Seq::empty(),
        JsonView::Null,
    );
}

/// What a message tells about a session.
pub open spec fn update_in(message: JsonView) -> Option<JsonView> {
    field_of(message.get("params"@), "update"@)
}

/// A message about a session names the session and holds the update, as it is.
pub proof fn updates_name_their_session(session_id: Seq<char>, update: JsonView)
    ensures
        session_update_message(session_id, update).text_at("method"@) == Some("session/update"@),
        text_of(
            field_of(session_update_message(session_id, update).get("params"@), "sessionId"@),
        ) == Some(session_id),
        update_in(session_update_message(session_id, update)) == Some(update),
{
    reveal_strlit("sessionId");
    reveal_strlit("update");
    assert("sessionId"@.len() == 9);
    assert("update"@.len() == 6);
    messages_hold_what_they_tell(
        JsonView::Null,
        JsonView::Null,
        0,
        Seq::empty(),
        "session/update"@,
        session_update_message(session_id, update)->Object_0["params"@],
    );
}

/// Updates hold the text, the ids, the title, the kind and the state that they are to tell, in full.
pub proof fn updates_hold_what_they_tell(
    session_id: Seq<char>,
    tool_call_id: Seq<char>,
    text: Seq<char>,
    kind: Seq<char>,
)
    ensures
        ({
            let update = update_in(text_message(session_id, text));
            &&& text_of(field_of(update, "sessionUpdate"@)) == Some("agent_message_chunk"@)
            &&& text_of(field_of(field_of(update, "content"@), "type"@)) == Some("text"@)
            &&& text_of(field_of(field_of(update, "content"@), "text"@)) == Some(text)
        }),
        ({
            let update = update_in(thinking_message(session_id));
            &&& text_of(field_of(update, "sessionUpdate"@)) == Some("agent_thought_chunk"@)
            &&& text_of(field_of(field_of(update, "content"@), "type"@)) == Some("text"@)
            &&& text_of(field_of(field_of(update, "content"@), "text"@)) == Some(""@)
        }),
        ({
            let update = update_in(tool_start_message(session_id, tool_call_id, text, kind));
            &&& text_of(field_of(update, "sessionUpdate"@)) == Some("tool_call"@)
            &&& text_of(field_of(update, "toolCallId"@)) == Some(tool_call_id)
            &&& text_of(field_of(update, "title"@)) == Some(text)
            &&& text_of(field_of(update, "kind"@)) == Some(kind)
        }),
        ({
            let update = update_in(tool_done_message(session_id, tool_call_id, text));
            &&& text_of(field_of(update, "sessionUpdate"@)) == Some("tool_call_update"@)
            &&& text_of(field_of(update, "toolCallId"@)) == Some(tool_call_id)
            &&& text_of(field_of(update, "status"@)) == Some(text)
        }),
        forall|m: JsonView|
            #![trigger text_of(field_of(m.get("params"@), "sessionId"@))]
            m == text_message(session_id, text) || m == thinking_message(session_id) || m
                == tool_start_message(session_id, tool_call_id, text, kind) || m
                == tool_done_message(session_id, tool_call_id, text) ==> text_of(
                field_of(m.get("params"@), "sessionId"@),
            ) == Some(session_id),
{
    reveal_strlit("sessionUpdate");
    reveal_strlit("content");
    reveal_strlit("type");
    reveal_strlit("text");
    reveal_strlit("toolCallId");
    reveal_strlit("title");
    reveal_strlit("kind");
    reveal_strlit("status");
    assert("sessionUpdate"@.len() == 13);
    assert("content"@.len() == 7);
    assert("type"@[1] == 'y');
    assert("text"@[1] == 'e');
    assert("toolCallId"@.len() == 10);
    assert("title"@.len() == 5);
    assert("kind"@.len() == 4);
    assert("status"@.len() == 6);
    assert forall|update: JsonView|
        update_in(#[trigger] session_update_message(session_id, update)) == Some(update) && text_of(
            field_of(session_update_message(session_id, update).get("params"@), "sessionId"@),
        ) == Some(session_id) by {
        updates_name_their_session(session_id, update);
    }
}

/// Messages are written in their order, each as its JSON text with a line break behind it.
pub proof fn lines_follow_their_messages(messages: Seq<JsonView>)
    ensures
        lines_of(messages).len() == messages.len(),
        forall|i: int|
            0 <= i < messages.len() ==> #[trigger] lines_of(messages)[i] == json_text(messages[i])
                + seq!['\n'],
{
    assert forall|i: int| 0 <= i < messages.len() implies #[trigger] lines_of(messages)[i]
        == json_text(messages[i]) + seq!['\n'] by {
        assert(json_text(messages[i]).push('\n') == json_text(messages[i]) + seq!['\n']);
    }
}

/// An outbox stands for its messages, oldest first.
pub proof fn outboxes_stand_for_their_messages(out: Outbox)
    ensures
        out@ == out.messages@.map_values(|j: Json| j@),
{
    assert(out@ == out.messages@.map_values(|j: Json| j@));
}

/// The built-in tools have kinds of their own. Any other tool searches where its name holds
/// `search`, else reads where its name holds `read`, and else is of the kind for all the rest.
pub proof fn tool_kinds_follow_from_names(name: Seq<char>)
    ensures
        name == "read_file"@ || name == "list_dir"@ ==> tool_kind(name) == "read"@,
        name == "search_code"@ ==> tool_kind(name) == "search"@,
        name == "llm_chat"@ ==> tool_kind(name) == "think"@,
        name != "read_file"@ && name != "list_dir"@ && name != "llm_chat"@ && contains_text(
            name,
            "search"@,
        ) ==> tool_kind(name) == "search"@,
        name != "search_code"@ && name != "llm_chat"@ && !contains_text(name, "search"@)
            && contains_text(name, "read"@) ==> tool_kind(name) == "read"@,
        name != "read_file"@ && name != "list_dir"@ && name != "search_code"@ && name
            != "llm_chat"@ && !contains_text(name, "search"@) && !contains_text(name, "read"@)
            ==> tool_kind(name) == "other"@,
{
    reveal_strlit("read_file");
    reveal_strlit("list_dir");
    reveal_strlit("search_code");
    reveal_strlit("llm_chat");
    assert("read_file"@.len() == 9);
    assert("list_dir"@.len() == 8);
    assert("search_code"@.len() == 11);
    assert("llm_chat"@.len() == 8);
    assert("list_dir"@[1] == 'i');
    assert("llm_chat"@[1] == 'l');
}

} // verus!
