//! Talking to a language model over an OpenAI-compatible HTTP API: what to request, when to try
//! again, and how to read what comes back. Sending is left to the caller.

use vstd::arithmetic::power2::{lemma2_to64, lemma_pow2_unfold, pow2};
use vstd::prelude::*;

use crate::config::{from_environment, natural_u64, ConfigFile, Environment};
use crate::json::{
    copy_list, items_of, items_view, number_value, text_of, Fields, Json, JsonView, NumberView,
};
use crate::text::{
    before, decimal, decimal_text, join_three, join_two, repeated, starts_with,
    suffixes_are_removed_whole, texts, the_first_mark_ends_the_part, trim_end_matches, up_to,
    without_suffixes,
};

pub use crate::stream::StreamChunk;

verus! {

/// How often a request is tried again after a transient failure.
pub const MAX_RETRIES: u32 = 3;

/// How long to wait before the first retry, in milliseconds. The delay doubles each time.
pub const INITIAL_BACKOFF_MS: u64 = 500;

/// The settings of a backend and of the sessions that use it.
#[derive(Debug)]
pub struct LlmConfig {
    pub base_url: String,
    pub model: String,
    pub api_key: String,
    pub temperature: Option<serde_json::Number>,
    pub max_tokens: Option<u64>,
    pub timeout_secs: u64,
    /// How many turns of a conversation to keep; 0 keeps all.
    pub max_history_turns: usize,
    /// How many sessions may be open at a time; 0 sets no limit.
    pub max_sessions: usize,
    /// After how many idle seconds a session is closed; 0 closes none.
    pub session_idle_timeout_secs: u64,
    /// Whether assistant messages are kept in Ollama's own format.
    pub ollama_native: bool,
}

/// The model of an [`LlmConfig`].
#[verifier::ext_equal]
pub struct LlmConfigView {
    pub base_url: Seq<char>,
    pub model: Seq<char>,
    pub api_key: Seq<char>,
    pub temperature: Option<serde_json::Number>,
    pub max_tokens: Option<nat>,
    pub timeout_secs: nat,
    pub max_history_turns: nat,
    pub max_sessions: nat,
    pub session_idle_timeout_secs: nat,
    pub ollama_native: bool,
}

impl View for LlmConfig {
    type V = LlmConfigView;

    open spec fn view(&self) -> LlmConfigView {
        LlmConfigView {
            base_url: self.base_url@,
            model: self.model@,
            api_key: self.api_key@,
            temperature: self.temperature,
            max_tokens: natural_u64(self.max_tokens),
            timeout_secs: self.timeout_secs as nat,
            max_history_turns: self.max_history_turns as nat,
            max_sessions: self.max_sessions as nat,
            session_idle_timeout_secs: self.session_idle_timeout_secs as nat,
            ollama_native: self.ollama_native,
        }
    }
}

impl LlmConfig {
    /// The settings that the environment makes up.
    pub fn from_env(env: Environment) -> (r: LlmConfig)
        ensures
            r@ == from_environment(env),
    {
        ConfigFile::empty().into_llm_config(env)
    }

    /// Whether assistant messages are kept in Ollama's own format.
    pub fn is_ollama_native(&self) -> (r: bool)
        ensures
            r == self@.ollama_native,
    {
        self.ollama_native
    }
}

/// A request for a chat completion, to be sent by POST.
#[derive(Debug)]
pub struct ChatRequest {
    pub url: String,
    /// The value of the `Authorization` header.
    pub authorization: String,
    pub body: Json,
    pub timeout_secs: u64,
}

/// The body of a request for a chat completion.
pub open spec fn body_of(
    config: LlmConfigView,
    messages: Seq<JsonView>,
    model: Seq<char>,
    stream: bool,
    tools: Option<Seq<JsonView>>,
) -> JsonView {
    let base = map![
        "model"@ => JsonView::Text(model),
        "messages"@ => JsonView::Array(messages),
        "stream"@ => JsonView::Bool(stream),
    ];
    let with_temperature = match config.temperature {
        Some(t) => base.insert("temperature"@, JsonView::Number(number_value(t))),
        None => base,
    };
    let with_max_tokens = match config.max_tokens {
        Some(n) => with_temperature.insert(
            "max_tokens"@,
            JsonView::Number(NumberView::Integer(n as int)),
        ),
        None => with_temperature,
    };
    let with_tools = match tools {
        Some(t) => with_max_tokens.insert("tools"@, JsonView::Array(t)),
        None => with_max_tokens,
    };
    JsonView::Object(with_tools)
}

/// The models of an optional list of values.
pub open spec fn optional_items(items: Option<&Vec<Json>>) -> Option<Seq<JsonView>> {
    match items {
        Some(v) => Some(items_view(v@)),
        None => None,
    }
}

/// Builds the body of a request for a chat completion.
pub fn build_body(
    config: &LlmConfig,
    messages: &Vec<Json>,
    model: &str,
    stream: bool,
    tools: Option<&Vec<Json>>,
) -> (r: Json)
    ensures
        r@ == body_of(config@, items_view(messages@), model@, stream, optional_items(tools)),
{
    let mut fields: Fields = Fields::new().with("model", Json::text(model)).with(
        "messages",
        Json::Array(copy_list(messages)),
    ).with("stream", Json::Bool(stream));
    if let Some(t) = &config.temperature {
        fields = fields.with("temperature", Json::Number(t.clone()));
    }
    if let Some(n) = config.max_tokens {
        fields = fields.with("max_tokens", Json::unsigned(n));
    }
    if let Some(t) = tools {
        fields = fields.with("tools", Json::Array(copy_list(t)));
    }
    Json::Object(fields)
}

/// The model that a request names: the session's choice, or the configured one.
pub open spec fn chosen_model(config: LlmConfigView, choice: Option<&str>) -> Seq<char> {
    match choice {
        Some(m) => m@,
        None => config.model,
    }
}

/// Whether a request asks for a chat completion from the configured backend.
pub open spec fn is_chat_request(request: ChatRequest, config: LlmConfigView, body: JsonView) -> bool {
    &&& request.url@ == config.base_url + "/chat/completions"@
    &&& request.authorization@ == "Bearer "@ + config.api_key
    &&& request.body@ == body
    &&& request.timeout_secs == config.timeout_secs
}

fn request_with(config: &LlmConfig, body: Json) -> (r: ChatRequest)
    ensures
        is_chat_request(r, config@, body@),
{
    ChatRequest {
        url: join_two(config.base_url.as_str(), "/chat/completions"),
        authorization: join_two("Bearer ", config.api_key.as_str()),
        body,
        timeout_secs: config.timeout_secs,
    }
}

/// The request for a completion that comes back in one piece.
pub fn chat(
    config: &LlmConfig,
    messages: &Vec<Json>,
    model_override: Option<&str>,
    tools: Option<&Vec<Json>>,
) -> (r: ChatRequest)
    ensures
        is_chat_request(
            r,
            config@,
            body_of(
                config@,
                items_view(messages@),
                chosen_model(config@, model_override),
                false,
                optional_items(tools),
            ),
        ),
{
    let model: &str = match model_override {
        Some(m) => m,
        None => config.model.as_str(),
    };
    request_with(config, build_body(config, messages, model, false, tools))
}

/// The request for a completion that is streamed piece by piece.
pub fn stream_chat(
    config: &LlmConfig,
    messages: &Vec<Json>,
    model_override: Option<&str>,
) -> (r: ChatRequest)
    ensures
        is_chat_request(
            r,
            config@,
            body_of(
                config@,
                items_view(messages@),
                chosen_model(config@, model_override),
                true,
                None,
            ),
        ),
{
    let model: &str = match model_override {
        Some(m) => m,
        None => config.model.as_str(),
    };
    request_with(config, build_body(config, messages, model, true, None))
}

/// What came of sending a request.
#[derive(Debug)]
pub enum HttpOutcome {
    /// The backend answered with a status.
    Status(u16),
    /// No answer came. A failure to connect and a timeout are transient.
    Transport { transient: bool, message: String },
}

/// What to do after a request was sent.
#[derive(Debug)]
pub enum NextStep {
    /// The answer is good: read it.
    Accept,
    /// Send the request again after a delay.
    Retry { delay_ms: u64 },
    /// Report a failure.
    GiveUp { reason: String },
}

/// The model of a [`NextStep`].
pub enum NextStepView {
    Accept,
    Retry { delay_ms: nat },
    GiveUp { reason: Seq<char> },
}

impl View for NextStep {
    type V = NextStepView;

    open spec fn view(&self) -> NextStepView {
        match self {
            NextStep::Accept => NextStepView::Accept,
            NextStep::Retry { delay_ms } => NextStepView::Retry { delay_ms: *delay_ms as nat },
            NextStep::GiveUp { reason } => NextStepView::GiveUp { reason: reason@ },
        }
    }
}

/// The phrase that `reqwest::StatusCode::canonical_reason` gives for a status, if there is one.
pub uninterp spec fn status_reason(status: u16) -> Option<Seq<char>>;

/// `reqwest::StatusCode::canonical_reason`: the phrase depends on the status alone. What is no
/// status has none.
#[verifier::external_body]
fn canonical_reason(status: u16) -> (r: Option<String>)
    ensures
        crate::text::optional_text(r) == status_reason(status),
{
    let code = reqwest::StatusCode::from_u16(status).ok()?;
    code.canonical_reason().map(String::from)
}

/// A status as it is shown: the number, then the phrase.
pub open spec fn status_line(status: u16) -> Seq<char> {
    decimal(status as nat) + " "@ + (match status_reason(status) {
        Some(phrase) => phrase,
        None => "<unknown status code>"@,
    })
}

/// Shows a status with the phrase that belongs to it.
fn show_status(status: u16, reason: &Option<String>) -> (r: String)
    requires
        crate::text::optional_text(*reason) == status_reason(status),
    ensures
        r@ == status_line(status),
{
    let number: String = decimal_text(status as u64);
    match reason {
        Some(phrase) => join_three(number.as_str(), " ", phrase.as_str()),
        None => join_three(number.as_str(), " ", "<unknown status code>"),
    }
}

/// Whether a status tells of success.
pub open spec fn success(status: u16) -> bool {
    200 <= status <= 299
}

/// Whether a status tells of a transient failure: 408, 429 or 500 to 504.
pub open spec fn retryable(status: u16) -> bool {
    status == 408 || status == 429 || 500 <= status <= 504
}

/// Whether a status tells of success.
pub fn is_success(status: u16) -> (r: bool)
    ensures
        r == success(status),
{
    200 <= status && status <= 299
}

/// Whether a status tells of a transient failure, after which a request is worth another try.
pub fn is_retryable(status: u16) -> (r: bool)
    ensures
        r == retryable(status),
{
    status == 408 || status == 429 || (500 <= status && status <= 504)
}

/// How a failure that a status tells of is reported.
pub open spec fn status_failure(status: u16, otherwise: Seq<char>) -> Seq<char> {
    "LLM HTTP "@ + status_line(status) + ": "@ + (match status_reason(status) {
        Some(phrase) => phrase,
        None => otherwise,
    })
}

fn describe_status(status: u16, otherwise: &str) -> (r: String)
    ensures
        r@ == status_failure(status, otherwise@),
{
    let reason: Option<String> = canonical_reason(status);
    let shown: String = show_status(status, &reason);
    let start: String = join_three("LLM HTTP ", shown.as_str(), ": ");
    match &reason {
        Some(phrase) => join_two(start.as_str(), phrase.as_str()),
        None => join_two(start.as_str(), otherwise),
    }
}

/// The delay before the retry that follows attempt number `attempt`, counted from 0.
pub open spec fn backoff_ms(attempt: nat) -> nat {
    INITIAL_BACKOFF_MS as nat * pow2(attempt)
}

fn backoff(attempt: u32) -> (r: u64)
    requires
        attempt < MAX_RETRIES,
    ensures
        r == backoff_ms(attempt as nat),
{
    proof {
        lemma2_to64();
    }
    if attempt == 0 {
        INITIAL_BACKOFF_MS
    } else if attempt == 1 {
        INITIAL_BACKOFF_MS * 2
    } else {
        INITIAL_BACKOFF_MS * 4
    }
}

/// Whether an outcome is a failure that another try may mend.
pub open spec fn transient(outcome: HttpOutcome) -> bool {
    match outcome {
        HttpOutcome::Status(status) => !success(status) && retryable(status),
        HttpOutcome::Transport { transient, .. } => transient,
    }
}

/// How a failure is reported.
pub open spec fn failure_reason(outcome: HttpOutcome) -> Seq<char> {
    match outcome {
        HttpOutcome::Status(status) => status_failure(
            status,
            if retryable(status) {
                "error"@
            } else {
                "Unknown error"@
            },
        ),
        HttpOutcome::Transport { message, .. } => "HTTP request failed: "@ + message@,
    }
}

/// What follows attempt number `attempt`, counted from 0: success is accepted, a transient
/// failure is retried while retries are left, and any other failure is reported.
pub open spec fn step_after(attempt: nat, outcome: HttpOutcome) -> NextStepView {
    if outcome is Status && success(outcome->Status_0) {
        NextStepView::Accept
    } else if transient(outcome) && attempt < MAX_RETRIES {
        NextStepView::Retry { delay_ms: backoff_ms(attempt) }
    } else {
        NextStepView::GiveUp { reason: failure_reason(outcome) }
    }
}

/// Decides what follows attempt number `attempt`, counted from 0.
pub fn after_attempt(attempt: u32, outcome: HttpOutcome) -> (r: NextStep)
    ensures
        r@ == step_after(attempt as nat, outcome),
{
    match outcome {
        HttpOutcome::Status(status) => if is_success(status) {
            NextStep::Accept
        } else if is_retryable(status) {
            if attempt < MAX_RETRIES {
                NextStep::Retry { delay_ms: backoff(attempt) }
            } else {
                NextStep::GiveUp { reason: describe_status(status, "error") }
            }
        } else {
            NextStep::GiveUp { reason: describe_status(status, "Unknown error") }
        },
        HttpOutcome::Transport { transient, message } => if transient && attempt < MAX_RETRIES {
            NextStep::Retry { delay_ms: backoff(attempt) }
        } else {
            NextStep::GiveUp { reason: join_two("HTTP request failed: ", message.as_str()) }
        },
    }
}

/// Whether attempt number `n` is made, where each attempt comes to the given outcome: all attempts
/// before it were to be repeated.
pub open spec fn attempt_made(outcomes: spec_fn(nat) -> HttpOutcome, n: nat) -> bool {
    forall|k: nat| k < n ==> #[trigger] step_after(k, outcomes(k)) is Retry
}

/// A request is sent once and repeated at most [`MAX_RETRIES`] times, whatever comes of it.
pub proof fn retries_are_bounded(outcomes: spec_fn(nat) -> HttpOutcome, n: nat)
    requires
        attempt_made(outcomes, n),
    ensures
        n <= MAX_RETRIES,
{
    if n > MAX_RETRIES {
        assert(step_after(MAX_RETRIES as nat, outcomes(MAX_RETRIES as nat)) is Retry);
    }
}

/// The first retry waits for half a second, and each later one for twice as long as the one
/// before it.
pub proof fn delays_double()
    ensures
        backoff_ms(0) == INITIAL_BACKOFF_MS,
        forall|attempt: nat| #[trigger] backoff_ms(attempt + 1) == 2 * backoff_ms(attempt),
{
    lemma2_to64();
    assert forall|attempt: nat| #[trigger] backoff_ms(attempt + 1) == 2 * backoff_ms(attempt) by {
        lemma_pow2_unfold(attempt + 1);
    }
}

/// A failure is never taken for success, and a success never for a failure.
pub proof fn only_success_is_accepted(attempt: nat, outcome: HttpOutcome)
    ensures
        step_after(attempt, outcome) is Accept <==> (outcome is Status && success(
            outcome->Status_0,
        )),
{
}

/// What came of asking a backend something by GET.
#[derive(Debug)]
pub enum HttpReply {
    /// The backend answered, with JSON or with something else.
    Answer { status: u16, body: Option<Json> },
    /// No answer came.
    Failed { reason: String },
}

/// How far the probe of a backend has come.
#[derive(Debug)]
pub enum ProbeStage {
    Start,
    /// The list of Ollama's models was asked for.
    Tags(HttpReply),
    /// The OpenAI-compatible list of models was asked for.
    Models(HttpReply),
}

/// What to do next to find out which models a backend has.
#[derive(Debug)]
pub enum ProbeStep {
    /// Ask for Ollama's list, by GET.
    AskTags { url: String },
    /// Ask for the OpenAI-compatible list, by GET and with an `Authorization` header.
    AskModels { url: String, authorization: String },
    /// The backend was reached; these are its models.
    Listed { models: Vec<String> },
    /// The backend was not reached.
    Unreachable { reason: String },
}

/// The model of a [`ProbeStep`].
pub enum ProbeStepView {
    AskTags { url: Seq<char> },
    AskModels { url: Seq<char>, authorization: Seq<char> },
    Listed { models: Seq<Seq<char>> },
    Unreachable { reason: Seq<char> },
}

impl View for ProbeStep {
    type V = ProbeStepView;

    open spec fn view(&self) -> ProbeStepView {
        match self {
            ProbeStep::AskTags { url } => ProbeStepView::AskTags { url: url@ },
            ProbeStep::AskModels { url, authorization } => ProbeStepView::AskModels {
                url: url@,
                authorization: authorization@,
            },
            ProbeStep::Listed { models } => ProbeStepView::Listed { models: texts(models@) },
            ProbeStep::Unreachable { reason } => ProbeStepView::Unreachable { reason: reason@ },
        }
    }
}

/// The backend's address without the part that belongs to the OpenAI-compatible API.
pub open spec fn root_url(base_url: Seq<char>) -> Seq<char> {
    without_suffixes(without_suffixes(base_url, "/v1"@), "/"@)
}

/// The strings that stand under `key` in a list of objects, in order. Items without one are
/// left out.
pub open spec fn texts_under(items: Seq<JsonView>, key: Seq<char>) -> Seq<Seq<char>>
    decreases items.len(),
{
    if items.len() == 0 {
        Seq::empty()
    } else {
        match items.last().text_at(key) {
            Some(s) => texts_under(items.drop_last(), key).push(s),
            None => texts_under(items.drop_last(), key),
        }
    }
}

/// The names in a list of models: those under `key` in the items of the field `list`.
pub open spec fn listed_names(reply: JsonView, list: Seq<char>, key: Seq<char>) -> Seq<Seq<char>> {
    match items_of(reply.get(list)) {
        Some(items) => texts_under(items, key),
        None => Seq::empty(),
    }
}

/// The names in a list of models.
pub fn model_names(reply: &Json, list: &str, key: &str) -> (r: Vec<String>)
    ensures
        texts(r@) == listed_names(reply@, list@, key@),
{
    let mut names: Vec<String> = Vec::new();
    let items: &Vec<Json> = match reply.get(list) {
        Some(v) => match v.as_array() {
            Some(items) => items,
            None => {
                assert(texts(names@) == Seq::<Seq<char>>::empty());
                return names;
            },
        },
        None => {
            assert(texts(names@) == Seq::<Seq<char>>::empty());
            return names;
        },
    };
    let mut i: usize = 0;
    assert(texts(names@) == Seq::<Seq<char>>::empty());
    while i < items.len()
        invariant
            i <= items@.len(),
            texts(names@) == texts_under(items_view(items@).take(i as int), key@),
        decreases items@.len() - i,
    {
        let ghost seen = items_view(items@).take(i + 1);
        let ghost so_far = names@;
        assert(seen.drop_last() == items_view(items@).take(i as int));
        assert(seen.last() == items@[i as int]@);
        if let Some(name) = items[i].text_at(key) {
            names.push(name);
            assert(texts(names@) == texts(so_far).push(name@));
        }
        i += 1;
    }
    assert(items_view(items@).take(i as int) == items_view(items@));
    names
}

/// What follows each stage of the probe: Ollama's list settles it if it comes, else the
/// OpenAI-compatible list does, or the failure to get it.
pub open spec fn probe_step(config: LlmConfigView, stage: ProbeStage) -> ProbeStepView {
    match stage {
        ProbeStage::Start => ProbeStepView::AskTags { url: root_url(config.base_url) + "/api/tags"@ },
        ProbeStage::Tags(HttpReply::Answer { status, body: Some(body) }) if success(status) =>
            ProbeStepView::Listed { models: listed_names(body@, "models"@, "name"@) },
        ProbeStage::Tags(_) => ProbeStepView::AskModels {
            url: config.base_url + "/models"@,
            authorization: "Bearer "@ + config.api_key,
        },
        ProbeStage::Models(HttpReply::Answer { status, body }) => if success(status) {
            ProbeStepView::Listed {
                models: match body {
                    Some(body) => listed_names(body@, "data"@, "id"@),
                    None => Seq::empty(),
                },
            }
        } else {
            ProbeStepView::Unreachable { reason: "HTTP "@ + status_line(status) }
        },
        ProbeStage::Models(HttpReply::Failed { reason }) => ProbeStepView::Unreachable {
            reason: reason@,
        },
    }
}

/// Decides the next step of finding out whether the backend is there and which models it has.
pub fn probe_backend(config: &LlmConfig, stage: ProbeStage) -> (r: ProbeStep)
    ensures
        r@ == probe_step(config@, stage),
{
    match stage {
        ProbeStage::Start => {
            proof {
                reveal_strlit("/v1");
                reveal_strlit("/");
            }
            let root: String = trim_end_matches(config.base_url.as_str(), "/v1");
            let base: String = trim_end_matches(root.as_str(), "/");
            ProbeStep::AskTags { url: join_two(base.as_str(), "/api/tags") }
        },
        ProbeStage::Tags(reply) => {
            if let HttpReply::Answer { status, body: Some(body) } = &reply {
                if is_success(*status) {
                    return ProbeStep::Listed { models: model_names(body, "models", "name") };
                }
            }
            ProbeStep::AskModels {
                url: join_two(config.base_url.as_str(), "/models"),
                authorization: join_two("Bearer ", config.api_key.as_str()),
            }
        },
        ProbeStage::Models(reply) => match reply {
            HttpReply::Answer { status, body } => if is_success(status) {
                match &body {
                    Some(body) => ProbeStep::Listed { models: model_names(body, "data", "id") },
                    None => {
                        let models: Vec<String> = Vec::new();
                        assert(texts(models@) == Seq::<Seq<char>>::empty());
                        ProbeStep::Listed { models }
                    },
                }
            } else {
                let reason: Option<String> = canonical_reason(status);
                let shown: String = show_status(status, &reason);
                ProbeStep::Unreachable { reason: join_two("HTTP ", shown.as_str()) }
            },
            HttpReply::Failed { reason } => ProbeStep::Unreachable { reason },
        },
    }
}

/// A probe comes to an end after two requests at most: one for Ollama's list and, where that does
/// not settle it, one for the OpenAI-compatible list.
pub proof fn probes_take_two_requests(config: LlmConfigView, first: HttpReply, second: HttpReply)
    ensures
        probe_step(config, ProbeStage::Start) is AskTags,
        probe_step(config, ProbeStage::Tags(first)) is Listed || probe_step(
            config,
            ProbeStage::Tags(first),
        ) is AskModels,
        probe_step(config, ProbeStage::Models(second)) is Listed || probe_step(
            config,
            ProbeStage::Models(second),
        ) is Unreachable,
{
}

/// Whether a listed model may be the configured one: one name starts with the other, where a
/// listed name counts up to its colon.
pub open spec fn matches_model(listed: Seq<char>, configured: Seq<char>) -> bool {
    configured.is_prefix_of(listed) || up_to(listed, ':').is_prefix_of(configured)
}

/// Whether the configured model is among the listed ones.
pub fn configured_model_listed(config: &LlmConfig, models: &Vec<String>) -> (r: bool)
    ensures
        r == exists|i: int|
            0 <= i < models@.len() && #[trigger] matches_model(models@[i]@, config@.model),
{
    let mut i: usize = 0;
    while i < models.len()
        invariant
            i <= models@.len(),
            forall|k: int|
                0 <= k < i ==> !#[trigger] matches_model(models@[k]@, config@.model),
        decreases models@.len() - i,
    {
        let name: &str = models[i].as_str();
        if starts_with(name, config.model.as_str()) {
            assert(matches_model(models@[i as int]@, config@.model));
            return true;
        }
        let family: String = before(name, ':');
        if starts_with(config.model.as_str(), family.as_str()) {
            assert(matches_model(models@[i as int]@, config@.model));
            return true;
        }
        i += 1;
    }
    false
}

/// The body of a request holds the model, the conversation in full and whether to stream, and each
/// of the temperature, the token limit and the tools just where it is set, whatever else is set. It
/// holds nothing else.
pub proof fn bodies_hold_what_is_set(
    config: LlmConfigView,
    messages: Seq<JsonView>,
    model: Seq<char>,
    stream: bool,
    tools: Option<Seq<JsonView>>,
)
    ensures
        ({
            let body = body_of(config, messages, model, stream, tools);
            &&& body.text_at("model"@) == Some(model)
            &&& items_of(body.get("messages"@)) == Some(messages)
            &&& body.get("stream"@) == Some(JsonView::Bool(stream))
            &&& body.get("temperature"@) is Some <==> config.temperature is Some
            &&& config.temperature is Some ==> body.get("temperature"@) == Some(
                JsonView::Number(number_value(config.temperature->0)),
            )
            &&& body.get("max_tokens"@) is Some <==> config.max_tokens is Some
            &&& config.max_tokens is Some ==> body.get("max_tokens"@) == Some(
                JsonView::Number(NumberView::Integer(config.max_tokens->0 as int)),
            )
            &&& body.get("tools"@) is Some <==> tools is Some
            &&& tools is Some ==> items_of(body.get("tools"@)) == Some(tools->0)
            &&& forall|key: Seq<char>|
                #[trigger] body.get(key) is Some ==> key == "model"@ || key == "messages"@ || key
                    == "stream"@ || key == "temperature"@ || key == "max_tokens"@ || key
                    == "tools"@
        }),
{
    reveal_strlit("model");
    reveal_strlit("messages");
    reveal_strlit("stream");
    reveal_strlit("temperature");
    reveal_strlit("max_tokens");
    reveal_strlit("tools");
    assert("model"@.len() == 5);
    assert("model"@[0] == 'm');
    assert("messages"@.len() == 8);
    assert("stream"@.len() == 6);
    assert("temperature"@.len() == 11);
    assert("max_tokens"@.len() == 10);
    assert("tools"@.len() == 5);
    assert("tools"@[0] == 't');
}

/// A chat request goes to the configured backend, with the configured key and timeout, and has the
/// body that it is to have.
pub proof fn chat_requests_go_to_the_backend(
    request: ChatRequest,
    config: LlmConfigView,
    body: JsonView,
)
    requires
        is_chat_request(request, config, body),
    ensures
        request.url@ == config.base_url + "/chat/completions"@,
        request.authorization@ == "Bearer "@ + config.api_key,
        request.timeout_secs == config.timeout_secs,
        request.body@ == body,
{
}

/// A session's choice goes before the configured model.
pub proof fn the_choice_goes_first(config: LlmConfigView, choice: &str)
    ensures
        chosen_model(config, Some(choice)) == choice@,
        chosen_model(config, None) == config.model,
{
}

/// Settings stand for what their fields hold.
pub proof fn settings_stand_for_their_fields(config: LlmConfig, items: &Vec<Json>)
    ensures
        config@.base_url == config.base_url@,
        config@.model == config.model@,
        config@.api_key == config.api_key@,
        config@.temperature == config.temperature,
        config.max_tokens is None ==> config@.max_tokens is None,
        config.max_tokens is Some ==> config@.max_tokens == Some(config.max_tokens->0 as nat),
        config@.timeout_secs == config.timeout_secs,
        config@.max_history_turns == config.max_history_turns,
        config@.max_sessions == config.max_sessions,
        config@.session_idle_timeout_secs == config.session_idle_timeout_secs,
        config@.ollama_native == config.ollama_native,
        optional_items(Some(items)) == Some(items@.map_values(|j: Json| j@)),
        optional_items(None) is None,
{
    assert(items_view(items@) == items@.map_values(|j: Json| j@));
}

/// A request is repeated just where that may help and retries are left: after the statuses 408, 429
/// and 500 to 504 and after a transient failure to get an answer. The three retries wait for half a
/// second, one second and two seconds. What is neither repeated nor a success is given up.
pub proof fn requests_are_repeated_where_that_may_help(attempt: nat, outcome: HttpOutcome)
    ensures
        ({
            let step = step_after(attempt, outcome);
            let accepted = outcome matches HttpOutcome::Status(status) && 200 <= status < 300;
            let worth_it = match outcome {
                HttpOutcome::Status(status) => status == 408 || status == 429 || (500 <= status
                    && status <= 504),
                HttpOutcome::Transport { transient, .. } => transient,
            };
            &&& step is Accept <==> accepted
            &&& step is Retry <==> worth_it && attempt < 3
            &&& step is GiveUp <==> !accepted && !(worth_it && attempt < 3)
            &&& step is Retry && attempt == 0 ==> step->delay_ms == 500
            &&& step is Retry && attempt == 1 ==> step->delay_ms == 1000
            &&& step is Retry && attempt == 2 ==> step->delay_ms == 2000
        }),
{
    lemma2_to64();
}

/// A request that is given up is reported with all that is known of the failure: what the transport
/// said, or the status with its phrase.
pub proof fn failures_are_reported_in_full(attempt: nat, outcome: HttpOutcome)
    requires
        step_after(attempt, outcome) is GiveUp,
    ensures
        ({
            let reason = step_after(attempt, outcome)->reason;
            match outcome {
                HttpOutcome::Transport { message, .. } => reason == "HTTP request failed: "@
                    + message@,
                HttpOutcome::Status(status) => match status_reason(status) {
                    Some(phrase) => reason == "LLM HTTP "@ + (decimal(status as nat) + " "@
                        + phrase) + ": "@ + phrase,
                    None => reason == "LLM HTTP "@ + (decimal(status as nat) + " "@
                        + "<unknown status code>"@) + ": "@ + (if status == 408 || status == 429
                        || (500 <= status && status <= 504) {
                        "error"@
                    } else {
                        "Unknown error"@
                    }),
                },
            }
        }),
{
}

/// The names under a key come in the order of the list, one for each item that has one, in full.
pub proof fn names_come_in_the_order_of_the_list(
    a: Seq<JsonView>,
    b: Seq<JsonView>,
    item: JsonView,
    key: Seq<char>,
)
    ensures
        texts_under(Seq::empty(), key) == Seq::<Seq<char>>::empty(),
        text_of(item.get(key)) is Some ==> texts_under(seq![item], key) == seq![
            text_of(item.get(key))->0,
        ],
        text_of(item.get(key)) is None ==> texts_under(seq![item], key) == Seq::<
            Seq<char>,
        >::empty(),
        texts_under(a + b, key) == texts_under(a, key) + texts_under(b, key),
    decreases b.len(),
{
    assert(seq![item].drop_last() == Seq::<JsonView>::empty());
    assert(texts_under(Seq::<JsonView>::empty(), key) == Seq::<Seq<char>>::empty());
    if text_of(item.get(key)) is Some {
        assert(texts_under(seq![item], key) == seq![text_of(item.get(key))->0]);
    }
    if b.len() == 0 {
        assert(a + b == a);
        assert(texts_under(a, key) + texts_under(b, key) == texts_under(a, key));
    } else {
        names_come_in_the_order_of_the_list(a, b.drop_last(), item, key);
        assert((a + b).drop_last() == a + b.drop_last());
        assert((a + b).last() == b.last());
        if let Some(s) = b.last().text_at(key) {
            assert((texts_under(a, key) + texts_under(b.drop_last(), key)).push(s) == texts_under(
                a,
                key,
            ) + texts_under(b.drop_last(), key).push(s));
        }
    }
}

/// The backend's own address is what the configured one is without every `/v1` at its end and then
/// without every slash.
pub proof fn the_root_lacks_the_api_part(base_url: Seq<char>)
    ensures
        exists|n: nat, m: nat|
            base_url == root_url(base_url) + #[trigger] repeated("/"@, n) + #[trigger] repeated(
                "/v1"@,
                m,
            ) && !"/v1"@.is_suffix_of(root_url(base_url) + repeated("/"@, n)),
        !"/"@.is_suffix_of(root_url(base_url)),
{
    reveal_strlit("/v1");
    reveal_strlit("/");
    let inner = without_suffixes(base_url, "/v1"@);
    suffixes_are_removed_whole(base_url, "/v1"@);
    suffixes_are_removed_whole(inner, "/"@);
    let m = choose|m: nat| base_url == inner + #[trigger] repeated("/v1"@, m);
    let n = choose|n: nat| inner == root_url(base_url) + #[trigger] repeated("/"@, n);
    assert(base_url == root_url(base_url) + repeated("/"@, n) + repeated("/v1"@, m));
}

/// A probe asks Ollama first. A list from there settles it, and whatever else comes of it, the
/// OpenAI-compatible list is asked for. That one settles it if it comes; a status other than success
/// or a failure is reported.
pub proof fn probes_go_on_until_a_list_comes(
    config: LlmConfigView,
    status: u16,
    body: Json,
    reason: String,
)
    ensures
        ({
            let good = 200 <= status < 300;
            let ask = ProbeStepView::AskModels {
                url: config.base_url + "/models"@,
                authorization: "Bearer "@ + config.api_key,
            };
            let names = |list: Seq<char>, key: Seq<char>|
                match items_of(body@.get(list)) {
                    Some(items) => texts_under(items, key),
                    None => Seq::empty(),
                };
            let with_body = HttpReply::Answer { status, body: Some(body) };
            let without_body = HttpReply::Answer { status, body: None };
            let failed = HttpReply::Failed { reason };
            &&& probe_step(config, ProbeStage::Start) == (ProbeStepView::AskTags {
                url: root_url(config.base_url) + "/api/tags"@,
            })
            &&& probe_step(config, ProbeStage::Tags(with_body)) == (if good {
                ProbeStepView::Listed { models: names("models"@, "name"@) }
            } else {
                ask
            })
            &&& probe_step(config, ProbeStage::Tags(without_body)) == ask
            &&& probe_step(config, ProbeStage::Tags(failed)) == ask
            &&& good ==> probe_step(config, ProbeStage::Models(with_body)) == (
            ProbeStepView::Listed { models: names("data"@, "id"@) })
            &&& good ==> probe_step(config, ProbeStage::Models(without_body)) == (
            ProbeStepView::Listed { models: Seq::empty() })
            &&& !good ==> probe_step(config, ProbeStage::Models(with_body)) is Unreachable
                && probe_step(config, ProbeStage::Models(without_body)) is Unreachable
            &&& !good ==> probe_step(config, ProbeStage::Models(with_body))->reason == "HTTP "@ + (
            decimal(status as nat) + " "@ + (match status_reason(status) {
                Some(phrase) => phrase,
                None => "<unknown status code>"@,
            }))
            &&& !good ==> probe_step(config, ProbeStage::Models(without_body)) == probe_step(
                config,
                ProbeStage::Models(with_body),
            )
            &&& probe_step(config, ProbeStage::Models(failed)) == (ProbeStepView::Unreachable {
                reason: reason@,
            })
        }),
{
}

/// The configured model counts as listed just where a listed name begins with it, or where it
/// begins with a listed name up to its colon.
pub proof fn models_are_matched_by_their_beginnings(listed: Seq<char>, configured: Seq<char>)
    ensures
        matches_model(listed, configured) <==> (configured.is_prefix_of(listed) || exists|
            family: Seq<char>,
        |
            #![trigger family.is_prefix_of(configured)]
            family.is_prefix_of(configured) && !family.contains(':') && (listed == family || (
            family.is_prefix_of(listed) && family.len() < listed.len()
                && listed[family.len() as int] == ':'))),
{
    the_first_mark_ends_the_part(listed, ':');
    let part = up_to(listed, ':');
    if matches_model(listed, configured) && !configured.is_prefix_of(listed) {
        assert(part.is_prefix_of(configured));
        if part.len() == listed.len() {
            assert(listed == part);
        }
    }
    if exists|family: Seq<char>|
        #![trigger family.is_prefix_of(configured)]
        family.is_prefix_of(configured) && !family.contains(':') && (listed == family || (
        family.is_prefix_of(listed) && family.len() < listed.len() && listed[family.len() as int]
            == ':')) {
        let family = choose|family: Seq<char>|
            #![trigger family.is_prefix_of(configured)]
            family.is_prefix_of(configured) && !family.contains(':') && (listed == family || (
            family.is_prefix_of(listed) && family.len() < listed.len()
                && listed[family.len() as int] == ':'));
        if part.len() < family.len() {
            assert(listed[part.len() as int] == ':');
            assert(family[part.len() as int] == listed[part.len() as int]);
            assert(family.contains(':'));
        } else if part.len() > family.len() {
            assert(part[family.len() as int] == listed[family.len() as int]);
            assert(part.contains(':'));
        }
        assert(part == family);
    }
}

/// Success are the statuses from 200 to 299, and 408, 429 and 500 to 504 are worth another try.
pub proof fn statuses_are_told_apart(status: u16)
    ensures
        success(status) <==> 200 <= status < 300,
        retryable(status) <==> status == 408 || status == 429 || 500 <= status < 505,
{
}

/// The names in a list of models are those under the key in the items of the list, where there is
/// one.
pub proof fn names_are_taken_from_the_list(reply: JsonView, list: Seq<char>, key: Seq<char>)
    ensures
        items_of(reply.get(list)) is Some ==> listed_names(reply, list, key) == texts_under(
            items_of(reply.get(list))->0,
            key,
        ),
        items_of(reply.get(list)) is None ==> listed_names(reply, list, key).len() == 0,
{
}

/// What is to be done next stands for what it holds.
pub proof fn next_steps_stand_for_what_they_hold(step: NextStep, probe: ProbeStep)
    ensures
        ({
            &&& step is Accept ==> step@ is Accept
            &&& step matches NextStep::Retry { delay_ms } ==> step@ == (NextStepView::Retry {
                delay_ms: delay_ms as nat,
            })
            &&& step matches NextStep::GiveUp { reason } ==> step@ == (NextStepView::GiveUp {
                reason: reason@,
            })
            &&& probe matches ProbeStep::AskTags { url } ==> probe@ == (ProbeStepView::AskTags {
                url: url@,
            })
            &&& probe matches ProbeStep::AskModels { url, authorization } ==> probe@ == (
            ProbeStepView::AskModels { url: url@, authorization: authorization@ })
            &&& probe matches ProbeStep::Listed { models } ==> probe@ == (ProbeStepView::Listed {
                models: models@.map_values(|s: String| s@),
            })
            &&& probe matches ProbeStep::Unreachable { reason } ==> probe@ == (
            ProbeStepView::Unreachable { reason: reason@ })
        }),
{
}

} // verus!
