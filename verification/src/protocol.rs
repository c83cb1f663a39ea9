//! The protocol's data: requests, sessions and errors.

use vstd::prelude::*;

use crate::json::{items_view, Json, JsonView};
use crate::text::{decimal, decimal_text, join_three, join_two, same};

verus! {

/// One JSON-RPC line. A notification, such as `session/cancel`, has no `id`.
#[derive(Debug)]
pub struct JsonRpcRequest {
    pub id: Option<Json>,
    pub method: String,
    pub params: Option<Json>,
}

/// A conversation with one client.
#[derive(Debug)]
pub struct Session {
    /// The history: the system prompt, then what the user, the model and the tools said.
    pub messages: Vec<Json>,
    /// When the session was last used, in nanoseconds on a clock that never goes back.
    pub last_active: u128,
    /// The directory in which the session's tools work.
    pub working_dir: String,
    /// Set by `session/cancel`, cleared when the next prompt begins.
    pub cancelled: bool,
    /// `ask`, `plan` or `agent`.
    pub mode: String,
    /// The backend model that the session uses.
    pub model: String,
}

/// The model of a [`Session`].
#[verifier::ext_equal]
pub struct SessionView {
    pub messages: Seq<JsonView>,
    pub last_active: nat,
    pub working_dir: Seq<char>,
    pub cancelled: bool,
    pub mode: Seq<char>,
    pub model: Seq<char>,
}

impl View for Session {
    type V = SessionView;

    open spec fn view(&self) -> SessionView {
        SessionView {
            messages: items_view(self.messages@),
            last_active: self.last_active as nat,
            working_dir: self.working_dir@,
            cancelled: self.cancelled,
            mode: self.mode@,
            model: self.model@,
        }
    }
}

/// Whether a session can be in the mode.
pub open spec fn valid_mode(mode: Seq<char>) -> bool {
    mode == "ask"@ || mode == "plan"@ || mode == "agent"@
}

/// A history cut down to its first message and its last `2 * max_turns`.
pub open spec fn trimmed_history(messages: Seq<JsonView>, max_turns: nat) -> Seq<JsonView> {
    if messages.len() > 2 * max_turns + 1 {
        seq![messages[0]] + messages.skip(messages.len() - 2 * max_turns)
    } else {
        messages
    }
}

/// A session that was just opened.
pub open spec fn new_session(
    system_message: JsonView,
    working_dir: Seq<char>,
    model: Seq<char>,
    now: nat,
) -> SessionView {
    SessionView {
        messages: seq![system_message],
        last_active: now,
        working_dir,
        cancelled: false,
        mode: "agent"@,
        model,
    }
}

impl SessionView {
    /// The session with one more message.
    pub open spec fn push(self, message: JsonView) -> SessionView {
        SessionView { messages: self.messages.push(message), ..self }
    }

    /// How long the session has been idle at the time `now`.
    pub open spec fn idle(self, now: nat) -> nat {
        if now >= self.last_active {
            (now - self.last_active) as nat
        } else {
            0
        }
    }
}

impl Session {
    /// Opens a session in `agent` mode whose history is the system message.
    pub fn new(system_message: Json, working_dir: String, model: String, now: u128) -> (r: Session)
        ensures
            r@ == new_session(system_message@, working_dir@, model@, now as nat),
    {
        let mut messages: Vec<Json> = Vec::new();
        messages.push(system_message);
        assert(items_view(messages@) == seq![system_message@]);
        Session {
            messages,
            last_active: now,
            working_dir,
            cancelled: false,
            mode: "agent".to_owned(),
            model,
        }
    }

    /// Whether a session can be in the mode.
    pub fn is_valid_mode(mode: &str) -> (r: bool)
        ensures
            r == valid_mode(mode@),
    {
        same(mode, "ask") || same(mode, "plan") || same(mode, "agent")
    }

    /// Asks the current prompt turn to stop.
    pub fn request_cancel(&mut self)
        ensures
            final(self)@ == (SessionView { cancelled: true, ..old(self)@ }),
    {
        self.cancelled = true;
    }

    /// Whether the current prompt turn was asked to stop.
    pub fn is_cancelled(&self) -> (r: bool)
        ensures
            r == self@.cancelled,
    {
        self.cancelled
    }

    /// Forgets an earlier request to stop.
    pub fn clear_cancel(&mut self)
        ensures
            final(self)@ == (SessionView { cancelled: false, ..old(self)@ }),
    {
        self.cancelled = false;
    }

    /// Notes that the session is in use at the time `now`.
    pub fn touch(&mut self, now: u128)
        ensures
            final(self)@ == (SessionView { last_active: now as nat, ..old(self)@ }),
    {
        self.last_active = now;
    }

    /// Adds a message to the history.
    pub fn push(&mut self, message: Json)
        ensures
            final(self)@ == old(self)@.push(message@),
    {
        self.messages.push(message);
        assert(items_view(self.messages@) == items_view(old(self).messages@).push(message@));
    }

    /// Cuts the history down to the system prompt and the last `max_turns` turns, where a turn
    /// is a user message and an assistant message. The system prompt always stays.
    pub fn trim_history(&mut self, max_turns: usize)
        ensures
            final(self)@ == (SessionView {
                messages: trimmed_history(old(self)@.messages, max_turns as nat),
                ..old(self)@
            }),
    {
        let len: usize = self.messages.len();
        if len > 0 && max_turns <= (len - 1) / 2 && len > max_turns * 2 + 1 {
            let keep: usize = max_turns * 2;
            let ghost before = self.messages@;
            let mut tail: Vec<Json> = self.messages.split_off(len - keep);
            self.messages.truncate(1);
            self.messages.append(&mut tail);
            assert(items_view(self.messages@) == trimmed_history(
                items_view(before),
                max_turns as nat,
            ));
        }
    }
}

/// Trimming keeps the first message.
pub proof fn trimming_keeps_the_system_prompt(messages: Seq<JsonView>, max_turns: nat)
    requires
        messages.len() > 0,
    ensures
        trimmed_history(messages, max_turns).len() > 0,
        trimmed_history(messages, max_turns)[0] == messages[0],
{
}

/// After trimming, at most the system prompt and two messages for each turn are left.
pub proof fn trimming_bounds_the_history(messages: Seq<JsonView>, max_turns: nat)
    ensures
        trimmed_history(messages, max_turns).len() <= 2 * max_turns + 1,
        trimmed_history(messages, max_turns).len() <= messages.len(),
{
}

/// What trimming leaves behind the system prompt are the latest messages, in their order.
pub proof fn trimming_keeps_the_latest(messages: Seq<JsonView>, max_turns: nat)
    requires
        messages.len() > 0,
    ensures
        ({
            let kept = trimmed_history(messages, max_turns).skip(1);
            kept == messages.skip(messages.len() - kept.len())
        }),
{
    let kept = trimmed_history(messages, max_turns).skip(1);
    assert(kept == messages.skip(messages.len() - kept.len()));
}

/// Trimming twice is trimming once.
pub proof fn trimming_is_idempotent(messages: Seq<JsonView>, max_turns: nat)
    ensures
        trimmed_history(trimmed_history(messages, max_turns), max_turns) == trimmed_history(
            messages,
            max_turns,
        ),
{
}

/// An error that is reported to the client, with a JSON-RPC error code.
#[derive(Debug, PartialEq, Eq)]
pub enum AcpError {
    MissingParam { field: String },
    UnknownSession { session_id: String },
    MethodNotFound { method: String },
    LlmError { reason: String },
    SessionLimitReached { max: usize },
}

/// The model of an [`AcpError`].
pub enum AcpErrorView {
    MissingParam { field: Seq<char> },
    UnknownSession { session_id: Seq<char> },
    MethodNotFound { method: Seq<char> },
    LlmError { reason: Seq<char> },
    SessionLimitReached { max: nat },
}

impl View for AcpError {
    type V = AcpErrorView;

    open spec fn view(&self) -> AcpErrorView {
        match self {
            AcpError::MissingParam { field } => AcpErrorView::MissingParam { field: field@ },
            AcpError::UnknownSession { session_id } => AcpErrorView::UnknownSession {
                session_id: session_id@,
            },
            AcpError::MethodNotFound { method } => AcpErrorView::MethodNotFound { method: method@ },
            AcpError::LlmError { reason } => AcpErrorView::LlmError { reason: reason@ },
            AcpError::SessionLimitReached { max } => AcpErrorView::SessionLimitReached {
                max: *max as nat,
            },
        }
    }
}

impl AcpErrorView {
    /// The JSON-RPC error code.
    pub open spec fn code(self) -> int {
        match self {
            AcpErrorView::MissingParam { .. } => -32602,
            AcpErrorView::UnknownSession { .. } => -32001,
            AcpErrorView::MethodNotFound { .. } => -32601,
            AcpErrorView::LlmError { .. } => -32003,
            AcpErrorView::SessionLimitReached { .. } => -32004,
        }
    }

    /// The message for the client.
    pub open spec fn message(self) -> Seq<char> {
        match self {
            AcpErrorView::MissingParam { field } => "Missing required parameter: "@ + field,
            AcpErrorView::UnknownSession { session_id } => "Unknown session: "@ + session_id,
            AcpErrorView::MethodNotFound { method } => "Method not found: "@ + method,
            AcpErrorView::LlmError { reason } => "LLM communication error: "@ + reason,
            AcpErrorView::SessionLimitReached { max } => "Session limit reached (max: "@ + decimal(
                max,
            ) + ")"@,
        }
    }
}

impl AcpError {
    /// The JSON-RPC error code: -32602 for invalid parameters, -32601 for an unknown method,
    /// and codes of the application for the rest.
    pub fn code(&self) -> (r: i64)
        ensures
            r == self@.code(),
    {
        match self {
            AcpError::MissingParam { .. } => -32602,
            AcpError::UnknownSession { .. } => -32001,
            AcpError::MethodNotFound { .. } => -32601,
            AcpError::LlmError { .. } => -32003,
            AcpError::SessionLimitReached { .. } => -32004,
        }
    }

    /// The message for the client.
    pub fn to_string(&self) -> (r: String)
        ensures
            r@ == self@.message(),
    {
        match self {
            AcpError::MissingParam { field } => join_two("Missing required parameter: ", field),
            AcpError::UnknownSession { session_id } => join_two("Unknown session: ", session_id),
            AcpError::MethodNotFound { method } => join_two("Method not found: ", method),
            AcpError::LlmError { reason } => join_two("LLM communication error: ", reason),
            AcpError::SessionLimitReached { max } => join_three(
                "Session limit reached (max: ",
                decimal_text(*max as u64).as_str(),
                ")",
            ),
        }
    }
}

/// Two errors have the same code only where they are of the same variant.
pub proof fn codes_tell_errors_apart(a: AcpErrorView, b: AcpErrorView)
    requires
        a.code() == b.code(),
    ensures
        a is MissingParam <==> b is MissingParam,
        a is UnknownSession <==> b is UnknownSession,
        a is MethodNotFound <==> b is MethodNotFound,
        a is LlmError <==> b is LlmError,
        a is SessionLimitReached <==> b is SessionLimitReached,
{
}

/// Trimming drops no more than it must: as many messages are left as there were, or the system
/// prompt and two for each turn where there were more. The first stays first, and the others are
/// the latest ones, in their order.
pub proof fn trimming_drops_no_more_than_it_must(messages: Seq<JsonView>, max_turns: nat)
    ensures
        ({
            let kept = trimmed_history(messages, max_turns);
            &&& kept.len() == (if messages.len() <= 2 * max_turns + 1 {
                messages.len()
            } else {
                2 * max_turns + 1
            })
            &&& messages.len() > 0 ==> kept[0] == messages[0]
            &&& forall|i: int|
                0 < i < kept.len() ==> #[trigger] kept[i] == messages[messages.len() - kept.len()
                    + i]
        }),
{
}

/// A session stands for what its fields hold.
pub proof fn sessions_stand_for_their_fields(session: Session)
    ensures
        session@.messages == session.messages@.map_values(|j: Json| j@),
        session@.last_active == session.last_active,
        session@.working_dir == session.working_dir@,
        session@.cancelled == session.cancelled,
        session@.mode == session.mode@,
        session@.model == session.model@,
{
    assert(items_view(session.messages@) == session.messages@.map_values(|j: Json| j@));
}

/// A message added to a history goes to its end, and nothing else of the session changes.
pub proof fn messages_are_added_at_the_end(session: SessionView, message: JsonView)
    ensures
        session.push(message).messages == session.messages + seq![message],
        session.push(message) == (SessionView {
            messages: session.push(message).messages,
            ..session
        }),
{
    assert(session.messages.push(message) == session.messages + seq![message]);
}

/// A session has been idle since it was last used, and not at all before that.
pub proof fn idle_time_counts_from_the_last_use(session: SessionView, since: nat)
    ensures
        session.idle(session.last_active + since) == since,
        since <= session.last_active ==> session.idle((session.last_active - since) as nat) == 0,
{
}

/// What an error tells the client ends with what caused it, in full, and has the code of its kind.
pub proof fn errors_tell_their_cause(text: Seq<char>, max: nat)
    ensures
        ({
            let e = AcpErrorView::MissingParam { field: text };
            e.code() == -32602 && e.message() == "Missing required parameter: "@ + text
        }),
        ({
            let e = AcpErrorView::UnknownSession { session_id: text };
            e.code() == -32001 && e.message() == "Unknown session: "@ + text
        }),
        ({
            let e = AcpErrorView::MethodNotFound { method: text };
            e.code() == -32601 && e.message() == "Method not found: "@ + text
        }),
        ({
            let e = AcpErrorView::LlmError { reason: text };
            e.code() == -32003 && e.message() == "LLM communication error: "@ + text
        }),
        ({
            let e = AcpErrorView::SessionLimitReached { max };
            e.code() == -32004 && e.message() == "Session limit reached (max: "@ + decimal(max)
                + ")"@
        }),
{
}

/// An error stands for what it holds.
pub proof fn errors_stand_for_what_they_hold(error: AcpError)
    ensures
        ({
            &&& error matches AcpError::MissingParam { field } ==> error@ == (
            AcpErrorView::MissingParam { field: field@ })
            &&& error matches AcpError::UnknownSession { session_id } ==> error@ == (
            AcpErrorView::UnknownSession { session_id: session_id@ })
            &&& error matches AcpError::MethodNotFound { method } ==> error@ == (
            AcpErrorView::MethodNotFound { method: method@ })
            &&& error matches AcpError::LlmError { reason } ==> error@ == (AcpErrorView::LlmError {
                reason: reason@,
            })
            &&& error matches AcpError::SessionLimitReached { max } ==> error@ == (
            AcpErrorView::SessionLimitReached { max: max as nat })
        }),
{
}

} // verus!
