//! What a client can choose for a session: the mode and the model.

use vstd::prelude::*;

use crate::json::{copy_list, items_of, items_view, Fields, Json, JsonView};
use crate::llm::LlmConfig;
use crate::protocol::{valid_mode, Session};
use crate::text::{join_three, same, texts};

verus! {

/// The models to offer: those listed, behind the configured one where it is not listed.
pub open spec fn merged_models(model: Seq<char>, listed: Seq<Seq<char>>) -> Seq<Seq<char>> {
    if listed.contains(model) {
        listed
    } else {
        seq![model] + listed
    }
}

/// Whether a list of strings holds a string.
pub fn list_contains(list: &Vec<String>, wanted: &str) -> (r: bool)
    ensures
        r == texts(list@).contains(wanted@),
{
    let wanted_text: String = wanted.to_owned();
    let mut i: usize = 0;
    while i < list.len()
        invariant
            i <= list@.len(),
            wanted_text@ == wanted@,
            forall|k: int| 0 <= k < i ==> texts(list@)[k] != wanted@,
        decreases list@.len() - i,
    {
        if list[i] == wanted_text {
            assert(texts(list@)[i as int] == wanted@);
            return true;
        }
        i += 1;
    }
    false
}

/// Makes sure that the configured model is on the list: it goes first where it is missing.
pub fn merge_models_with_default(config: &LlmConfig, models: Vec<String>) -> (r: Vec<String>)
    ensures
        texts(r@) == merged_models(config@.model, texts(models@)),
{
    let mut models: Vec<String> = models;
    if !list_contains(&models, config.model.as_str()) {
        let ghost before = models@;
        models.insert(0, config.model.clone());
        assert(texts(models@) == seq![config@.model] + texts(before));
    }
    models
}

/// A copy of a list of strings.
fn copy_texts(list: &Vec<String>) -> (r: Vec<String>)
    ensures
        texts(r@) == texts(list@),
{
    let mut copy: Vec<String> = Vec::new();
    let mut i: usize = 0;
    while i < list.len()
        invariant
            i <= list@.len(),
            copy@.len() == i,
            forall|k: int| 0 <= k < i ==> (#[trigger] copy@[k])@ == list@[k]@,
        decreases list@.len() - i,
    {
        copy.push(list[i].clone());
        i += 1;
    }
    assert(texts(copy@) == texts(list@));
    copy
}

/// The models to offer, given those that the backend is known to have. While none is known,
/// that is the configured one.
pub fn model_list_for_config_options(config: &LlmConfig, cached: &Vec<String>) -> (r: Vec<String>)
    ensures
        texts(r@) == merged_models(config@.model, texts(cached@)),
{
    if cached.is_empty() {
        let mut only: Vec<String> = Vec::new();
        only.push(config.model.clone());
        assert(texts(only@) == seq![config@.model] + texts(cached@));
        assert(!texts(cached@).contains(config@.model));
        only
    } else {
        merge_models_with_default(config, copy_texts(cached))
    }
}

/// The configured model is always offered.
pub proof fn the_configured_model_is_offered(model: Seq<char>, listed: Seq<Seq<char>>)
    ensures
        merged_models(model, listed).contains(model),
{
    if !listed.contains(model) {
        assert(merged_models(model, listed)[0] == model);
    }
}

/// Every listed model is offered, in the order of the list, and nothing else but the configured
/// one.
pub proof fn listed_models_are_offered(model: Seq<char>, listed: Seq<Seq<char>>)
    ensures
        listed == merged_models(model, listed).skip(
            merged_models(model, listed).len() - listed.len(),
        ),
        forall|m: Seq<char>|
            #[trigger] merged_models(model, listed).contains(m) <==> (m == model
                || listed.contains(m)),
{
    let merged = merged_models(model, listed);
    assert(listed == merged.skip(merged.len() - listed.len()));
    the_configured_model_is_offered(model, listed);
    assert forall|m: Seq<char>| #[trigger] merged.contains(m) <==> (m == model || listed.contains(m)) by {
        if listed.contains(m) {
            let i = choose|i: int| 0 <= i < listed.len() && listed[i] == m;
            assert(merged[i + merged.len() - listed.len()] == m);
        }
        if merged.contains(m) && m != model {
            let i = choose|i: int| 0 <= i < merged.len() && merged[i] == m;
            if !listed.contains(model) {
                assert(listed[i - 1] == m);
            }
        }
    }
}

/// Merging a merged list changes nothing.
pub proof fn merging_is_idempotent(model: Seq<char>, listed: Seq<Seq<char>>)
    ensures
        merged_models(model, merged_models(model, listed)) == merged_models(model, listed),
{
    the_configured_model_is_offered(model, listed);
}

/// What a mode asks of the model.
pub open spec fn instructions(mode: Seq<char>) -> Seq<char> {
    if mode == "ask"@ {
        "You are in Ask mode. Answer conversationally without using workspace tools; if you need file contents, ask the user to paste them."@
    } else if mode == "plan"@ {
        "You are in Plan mode. Produce clear plans and tradeoffs; use read-only tools only when they substantially improve the plan."@
    } else if mode == "agent"@ {
        "You are in Agent mode. Use the provided tools when they help you give accurate, actionable answers."@
    } else {
        ""@
    }
}

/// What a mode asks of the model.
pub fn mode_instructions(mode: &str) -> (r: &'static str)
    ensures
        r@ == instructions(mode@),
{
    if same(mode, "ask") {
        "You are in Ask mode. Answer conversationally without using workspace tools; if you need file contents, ask the user to paste them."
    } else if same(mode, "plan") {
        "You are in Plan mode. Produce clear plans and tradeoffs; use read-only tools only when they substantially improve the plan."
    } else if same(mode, "agent") {
        "You are in Agent mode. Use the provided tools when they help you give accurate, actionable answers."
    } else {
        ""
    }
}

/// A message of a conversation.
pub open spec fn chat_message(role: Seq<char>, content: Seq<char>) -> JsonView {
    JsonView::Object(
        map!["role"@ => JsonView::Text(role), "content"@ => JsonView::Text(content)],
    )
}

/// Makes a message of a conversation.
pub fn make_message(role: &str, content: &str) -> (r: Json)
    ensures
        r@ == chat_message(role@, content@),
{
    Json::Object(
        Fields::new().with("role", Json::text(role)).with("content", Json::text(content)),
    )
}

/// A system prompt with the mode's instructions behind it.
pub open spec fn with_instructions(prompt: Seq<char>, mode: Seq<char>) -> Seq<char> {
    if instructions(mode).len() == 0 {
        prompt
    } else {
        prompt + "\n\n"@ + instructions(mode)
    }
}

/// A conversation as the model gets it: a system message at its start also tells the mode.
pub open spec fn augmented(messages: Seq<JsonView>, mode: Seq<char>) -> Seq<JsonView> {
    if messages.len() > 0 && messages[0].text_at("role"@) == Some("system"@) {
        let prompt = match messages[0].text_at("content"@) {
            Some(s) => s,
            None => Seq::empty(),
        };
        messages.update(0, chat_message("system"@, with_instructions(prompt, mode)))
    } else {
        messages
    }
}

/// Builds the conversation that the model gets.
pub fn augment_messages_for_llm(messages: &Vec<Json>, mode: &str) -> (r: Vec<Json>)
    ensures
        items_view(r@) == augmented(items_view(messages@), mode@),
{
    let mut out: Vec<Json> = copy_list(messages);
    if out.len() == 0 {
        return out;
    }
    assert(items_view(messages@)[0] == out@[0]@);
    let is_system: bool = match out[0].text_at("role") {
        Some(role) => same(role.as_str(), "system"),
        None => false,
    };
    if is_system {
        let prompt: String = match out[0].text_at("content") {
            Some(s) => s,
            None => String::new(),
        };
        let suffix: &str = mode_instructions(mode);
        let combined: String = if suffix.is_empty() {
            prompt
        } else {
            join_three(prompt.as_str(), "\n\n", suffix)
        };
        let ghost before = out@;
        out.set(0, make_message("system", combined.as_str()));
        assert(items_view(out@) == items_view(before).update(0, out@[0]@));
    }
    out
}

/// Telling the mode changes at most the first message: all others reach the model as they are.
pub proof fn augmenting_keeps_the_conversation(messages: Seq<JsonView>, mode: Seq<char>)
    ensures
        augmented(messages, mode).len() == messages.len(),
        forall|i: int| 0 < i < messages.len() ==> augmented(messages, mode)[i] == messages[i],
{
}

/// The system prompt reaches the model with the instructions of the session's mode behind it.
pub proof fn the_model_is_told_the_mode(prompt: Seq<char>, rest: Seq<JsonView>, mode: Seq<char>)
    ensures
        augmented(seq![chat_message("system"@, prompt)] + rest, mode) == seq![
            chat_message("system"@, with_instructions(prompt, mode)),
        ] + rest,
{
    let messages = seq![chat_message("system"@, prompt)] + rest;
    reveal_strlit("role");
    reveal_strlit("content");
    assert("role"@.len() == 4);
    assert("content"@.len() == 7);
    assert(messages[0].text_at("role"@) == Some("system"@));
    assert(messages[0].text_at("content"@) == Some(prompt));
}

/// An option of a select list.
pub open spec fn choice(
    key: Seq<char>,
    value: Seq<char>,
    name: Seq<char>,
    description: JsonView,
) -> JsonView {
    JsonView::Object(
        map![
            key => JsonView::Text(value),
            "name"@ => JsonView::Text(name),
            "description"@ => description,
        ],
    )
}

/// The modes to choose from. The id of each stands under `key`.
pub open spec fn mode_choices(key: Seq<char>) -> Seq<JsonView> {
    seq![
        choice(
            key,
            "ask"@,
            "Ask"@,
            JsonView::Text("Answer without running workspace tools."@),
        ),
        choice(
            key,
            "plan"@,
            "Plan"@,
            JsonView::Text("Focus on plans and analysis; read-only tools when helpful."@),
        ),
        choice(
            key,
            "agent"@,
            "Agent"@,
            JsonView::Text("Use tools to inspect the project and respond accurately."@),
        ),
    ]
}

/// The models to choose from.
pub open spec fn model_choices(models: Seq<Seq<char>>) -> Seq<JsonView> {
    models.map_values(|m: Seq<char>| choice("value"@, m, m, JsonView::Null))
}

/// A select list.
pub open spec fn select(
    id: Seq<char>,
    name: Seq<char>,
    description: Seq<char>,
    current: Seq<char>,
    choices: Seq<JsonView>,
) -> JsonView {
    JsonView::Object(
        map![
            "id"@ => JsonView::Text(id),
            "name"@ => JsonView::Text(name),
            "description"@ => JsonView::Text(description),
            "category"@ => JsonView::Text(id),
            "type"@ => JsonView::Text("select"@),
            "currentValue"@ => JsonView::Text(current),
            "options"@ => JsonView::Array(choices),
        ],
    )
}

/// What a client can set: the session's mode and its model.
pub open spec fn config_options(
    mode: Seq<char>,
    model: Seq<char>,
    models: Seq<Seq<char>>,
) -> Seq<JsonView> {
    seq![
        select(
            "mode"@,
            "Session mode"@,
            "Ask: chat only. Plan: structured planning with read-only exploration. Agent: full tool use."@,
            mode,
            mode_choices("value"@),
        ),
        select(
            "model"@,
            "Model"@,
            "Backend language model for this session."@,
            model,
            model_choices(models),
        ),
    ]
}

/// The session's mode and the modes to choose from.
pub open spec fn modes_state(current: Seq<char>) -> JsonView {
    JsonView::Object(
        map![
            "currentModeId"@ => JsonView::Text(current),
            "availableModes"@ => JsonView::Array(mode_choices("id"@)),
        ],
    )
}

fn make_choice(key: &str, value: &str, name: &str, description: Json) -> (r: Json)
    ensures
        r@ == choice(key@, value@, name@, description@),
{
    Json::Object(
        Fields::new().with(key, Json::text(value)).with("name", Json::text(name)).with(
            "description",
            description,
        ),
    )
}

fn make_mode_choices(key: &str) -> (r: Vec<Json>)
    ensures
        items_view(r@) == mode_choices(key@),
{
    let mut choices: Vec<Json> = Vec::new();
    choices.push(
        make_choice(key, "ask", "Ask", Json::text("Answer without running workspace tools.")),
    );
    choices.push(
        make_choice(
            key,
            "plan",
            "Plan",
            Json::text("Focus on plans and analysis; read-only tools when helpful."),
        ),
    );
    choices.push(
        make_choice(
            key,
            "agent",
            "Agent",
            Json::text("Use tools to inspect the project and respond accurately."),
        ),
    );
    assert(items_view(choices@) == mode_choices(key@));
    choices
}

fn make_select(
    id: &str,
    name: &str,
    description: &str,
    current: &str,
    choices: Vec<Json>,
) -> (r: Json)
    ensures
        r@ == select(id@, name@, description@, current@, items_view(choices@)),
{
    Json::Object(
        Fields::new().with("id", Json::text(id)).with("name", Json::text(name)).with(
            "description",
            Json::text(description),
        ).with("category", Json::text(id)).with("type", Json::text("select")).with(
            "currentValue",
            Json::text(current),
        ).with("options", Json::Array(choices)),
    )
}

/// What a client can set in a session, with the models to choose from.
pub fn build_config_options(session: &Session, models: &Vec<String>) -> (r: Vec<Json>)
    ensures
        items_view(r@) == config_options(session@.mode, session@.model, texts(models@)),
{
    let mut model_list: Vec<Json> = Vec::new();
    let mut i: usize = 0;
    while i < models.len()
        invariant
            i <= models@.len(),
            model_list@.len() == i,
            forall|k: int|
                0 <= k < i ==> (#[trigger] model_list@[k])@ == choice(
                    "value"@,
                    models@[k]@,
                    models@[k]@,
                    JsonView::Null,
                ),
        decreases models@.len() - i,
    {
        let name: &str = models[i].as_str();
        model_list.push(make_choice("value", name, name, Json::Null));
        i += 1;
    }
    assert(items_view(model_list@) == model_choices(texts(models@)));
    let mut options: Vec<Json> = Vec::new();
    options.push(
        make_select(
            "mode",
            "Session mode",
            "Ask: chat only. Plan: structured planning with read-only exploration. Agent: full tool use.",
            session.mode.as_str(),
            make_mode_choices("value"),
        ),
    );
    options.push(
        make_select(
            "model",
            "Model",
            "Backend language model for this session.",
            session.model.as_str(),
            model_list,
        ),
    );
    assert(items_view(options@) == config_options(session@.mode, session@.model, texts(models@)));
    options
}

/// The session's mode and the modes to choose from.
pub fn modes_state_json(current: &str) -> (r: Json)
    ensures
        r@ == modes_state(current@),
{
    Json::Object(
        Fields::new().with("currentModeId", Json::text(current)).with(
            "availableModes",
            Json::Array(make_mode_choices("id")),
        ),
    )
}

/// The configured model goes first where the list lacks it, and nothing is added where it does not.
pub proof fn merging_adds_what_is_missing(model: Seq<char>, listed: Seq<Seq<char>>)
    ensures
        listed.contains(model) ==> merged_models(model, listed) == listed,
        !listed.contains(model) ==> merged_models(model, listed) == seq![model] + listed,
{
}

/// What is offered as a mode is what a session can be in, and nothing else.
pub proof fn the_modes_on_offer_are_the_valid_ones(mode: Seq<char>)
    ensures
        mode_choices("value"@).len() == 3,
        mode_choices("id"@).len() == 3,
        valid_mode(mode) <==> exists|i: int|
            0 <= i < 3 && (#[trigger] mode_choices("value"@)[i]).text_at("value"@) == Some(mode),
        valid_mode(mode) <==> exists|i: int|
            0 <= i < 3 && (#[trigger] mode_choices("id"@)[i]).text_at("id"@) == Some(mode),
        valid_mode(mode) <==> mode == "ask"@ || mode == "plan"@ || mode == "agent"@,
{
    reveal_strlit("value");
    reveal_strlit("id");
    reveal_strlit("name");
    reveal_strlit("description");
    assert("value"@.len() == 5);
    assert("id"@.len() == 2);
    assert("name"@.len() == 4);
    assert("description"@.len() == 11);
    let values = mode_choices("value"@);
    let ids = mode_choices("id"@);
    assert(values[0].text_at("value"@) == Some("ask"@));
    assert(values[1].text_at("value"@) == Some("plan"@));
    assert(values[2].text_at("value"@) == Some("agent"@));
    assert(ids[0].text_at("id"@) == Some("ask"@));
    assert(ids[1].text_at("id"@) == Some("plan"@));
    assert(ids[2].text_at("id"@) == Some("agent"@));
}

/// Each mode has instructions of its own, and what is no mode has none.
pub proof fn each_mode_has_its_instructions(mode: Seq<char>)
    ensures
        mode == "ask"@ ==> instructions(mode)
            == "You are in Ask mode. Answer conversationally without using workspace tools; if you need file contents, ask the user to paste them."@,
        mode == "plan"@ ==> instructions(mode)
            == "You are in Plan mode. Produce clear plans and tradeoffs; use read-only tools only when they substantially improve the plan."@,
        mode == "agent"@ ==> instructions(mode)
            == "You are in Agent mode. Use the provided tools when they help you give accurate, actionable answers."@,
        !valid_mode(mode) ==> instructions(mode).len() == 0,
        valid_mode(mode) ==> instructions(mode).len() > 0,
{
    reveal_strlit("ask");
    reveal_strlit("plan");
    reveal_strlit("agent");
    reveal_strlit("");
    reveal_strlit(
        "You are in Ask mode. Answer conversationally without using workspace tools; if you need file contents, ask the user to paste them.",
    );
    reveal_strlit(
        "You are in Plan mode. Produce clear plans and tradeoffs; use read-only tools only when they substantially improve the plan.",
    );
    reveal_strlit(
        "You are in Agent mode. Use the provided tools when they help you give accurate, actionable answers.",
    );
    assert("ask"@.len() == 3);
    assert("plan"@.len() == 4);
    assert("agent"@.len() == 5);
}

/// A message of a conversation has its role and its content, in full, and nothing else.
pub proof fn messages_hold_what_was_said(role: Seq<char>, content: Seq<char>)
    ensures
        chat_message(role, content).text_at("role"@) == Some(role),
        chat_message(role, content).text_at("content"@) == Some(content),
        chat_message(role, content)->Object_0.dom() == set!["role"@, "content"@],
{
    reveal_strlit("role");
    reveal_strlit("content");
    assert("role"@.len() == 4);
    assert("content"@.len() == 7);
    assert(chat_message(role, content)->Object_0.dom() =~= set!["role"@, "content"@]);
}

/// The model gets the conversation as it is, but that a system message in front has the mode's
/// instructions behind its text, set off by an empty line.
pub proof fn the_model_gets_the_conversation(messages: Seq<JsonView>, mode: Seq<char>)
    ensures
        ({
            let told = augmented(messages, mode);
            let system = messages.len() > 0 && messages[0].text_at("role"@) == Some("system"@);
            let prompt = match messages[0].text_at("content"@) {
                Some(prompt) => prompt,
                None => Seq::empty(),
            };
            &&& told.len() == messages.len()
            &&& forall|i: int| 0 < i < messages.len() ==> told[i] == messages[i]
            &&& !system ==> told == messages
            &&& system ==> told[0].text_at("role"@) == Some("system"@)
            &&& system && valid_mode(mode) ==> told[0].text_at("content"@) == Some(
                prompt + "\n\n"@ + instructions(mode),
            )
            &&& system && !valid_mode(mode) ==> told[0].text_at("content"@) == Some(prompt)
        }),
{
    let prompt = match messages[0].text_at("content"@) {
        Some(prompt) => prompt,
        None => Seq::empty(),
    };
    each_mode_has_its_instructions(mode);
    messages_hold_what_was_said("system"@, with_instructions(prompt, mode));
}

/// What a client can set are the mode, whose current value is the session's mode, and the model,
/// whose current value is the session's model. The models to choose from are all that are given, in
/// their order.
pub proof fn options_tell_the_state_and_the_choices(
    mode: Seq<char>,
    model: Seq<char>,
    models: Seq<Seq<char>>,
)
    ensures
        ({
            let options = config_options(mode, model, models);
            let choices = items_of(options[1].get("options"@));
            &&& options.len() == 2
            &&& options[0].text_at("id"@) == Some("mode"@)
            &&& options[0].text_at("type"@) == Some("select"@)
            &&& options[0].text_at("currentValue"@) == Some(mode)
            &&& options[0].text_at("name"@) == Some("Session mode"@)
            &&& options[0].text_at("category"@) == Some("mode"@)
            &&& options[0].text_at("description"@) == Some(
                "Ask: chat only. Plan: structured planning with read-only exploration. Agent: full tool use."@,
            )
            &&& options[1].text_at("name"@) == Some("Model"@)
            &&& options[1].text_at("category"@) == Some("model"@)
            &&& options[1].text_at("description"@) == Some(
                "Backend language model for this session."@,
            )
            &&& items_of(options[0].get("options"@)) == Some(mode_choices("value"@))
            &&& options[1].text_at("id"@) == Some("model"@)
            &&& options[1].text_at("type"@) == Some("select"@)
            &&& options[1].text_at("currentValue"@) == Some(model)
            &&& choices is Some && choices->0.len() == models.len()
            &&& forall|i: int|
                0 <= i < models.len() ==> (#[trigger] choices->0[i]).text_at("value"@) == Some(
                    models[i],
                ) && choices->0[i].text_at("name"@) == Some(models[i])
                    && choices->0[i].get("description"@) == Some(JsonView::Null)
        }),
        modes_state(mode).text_at("currentModeId"@) == Some(mode),
        items_of(modes_state(mode).get("availableModes"@)) == Some(mode_choices("id"@)),
{
    reveal_strlit("id");
    reveal_strlit("name");
    reveal_strlit("description");
    reveal_strlit("category");
    reveal_strlit("type");
    reveal_strlit("currentValue");
    reveal_strlit("options");
    reveal_strlit("value");
    reveal_strlit("currentModeId");
    reveal_strlit("availableModes");
    assert("id"@.len() == 2);
    assert("name"@.len() == 4);
    assert("name"@[0] == 'n');
    assert("description"@.len() == 11);
    assert("category"@.len() == 8);
    assert("type"@[0] == 't');
    assert("type"@.len() == 4);
    assert("currentValue"@.len() == 12);
    assert("options"@.len() == 7);
    assert("value"@.len() == 5);
    assert("currentModeId"@.len() == 13);
    assert("availableModes"@.len() == 14);
    let choices = model_choices(models);
    assert forall|i: int| 0 <= i < models.len() implies (#[trigger] choices[i]).text_at("value"@)
        == Some(models[i]) && choices[i].text_at("name"@) == Some(models[i]) && choices[i].get(
        "description"@,
    ) == Some(JsonView::Null) by {}
}

} // verus!
