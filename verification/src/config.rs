//! Where the settings come from: environment variables, a configuration file, defaults.

use vstd::prelude::*;

use crate::llm::{LlmConfig, LlmConfigView};
use crate::text::{
    decimal, numbers_are_read_as_written, optional_text, parse_unsigned, unsigned_value,
};

verus! {

/// What the environment says of the settings. Apart from the temperature, which is taken as a
/// number, each field holds a variable's text.
#[derive(Debug)]
pub struct Environment {
    pub llm_base_url: Option<String>,
    pub ollama_base_url: Option<String>,
    pub llm_model: Option<String>,
    pub ollama_model: Option<String>,
    pub llm_api_key: Option<String>,
    pub ollama_api_key: Option<String>,
    pub llm_temperature: Option<serde_json::Number>,
    pub llm_max_tokens: Option<String>,
    pub llm_timeout: Option<String>,
    pub llm_max_history_turns: Option<String>,
    pub llm_max_sessions: Option<String>,
    pub llm_session_idle_timeout: Option<String>,
}

/// What a configuration file says of the settings.
#[derive(Debug)]
pub struct ConfigFile {
    pub base_url: Option<String>,
    pub model: Option<String>,
    pub api_key: Option<String>,
    pub temperature: Option<serde_json::Number>,
    pub max_tokens: Option<u64>,
    pub timeout_secs: Option<u64>,
    pub max_history_turns: Option<usize>,
    pub max_sessions: Option<usize>,
    pub session_idle_timeout_secs: Option<u64>,
}

/// The first of three optional values that is there.
pub open spec fn first_of<T>(a: Option<T>, b: Option<T>, c: Option<T>) -> Option<T> {
    if a is Some {
        a
    } else if b is Some {
        b
    } else {
        c
    }
}

/// The value of a setting, or the default where nothing sets it.
pub open spec fn or_default<T>(value: Option<T>, default: T) -> T {
    match value {
        Some(v) => v,
        None => default,
    }
}

/// The number that a variable sets: its text, if it denotes a number of at most `max`.
pub open spec fn number_in(variable: Option<String>, max: nat) -> Option<nat> {
    match variable {
        Some(s) => unsigned_value(s@, max),
        None => None,
    }
}

/// An optional setting of a file, as a natural number.
pub open spec fn natural_u64(n: Option<u64>) -> Option<nat> {
    match n {
        Some(n) => Some(n as nat),
        None => None,
    }
}

/// An optional setting of a file, as a natural number.
pub open spec fn natural_usize(n: Option<usize>) -> Option<nat> {
    match n {
        Some(n) => Some(n as nat),
        None => None,
    }
}

/// The settings that an environment and a file make up: a variable goes before the file, the
/// file before the default.
pub open spec fn configured(env: Environment, file: ConfigFile) -> LlmConfigView {
    LlmConfigView {
        base_url: or_default(
            first_of(
                optional_text(env.llm_base_url),
                optional_text(env.ollama_base_url),
                optional_text(file.base_url),
            ),
            "http://localhost:11434/v1"@,
        ),
        model: or_default(
            first_of(
                optional_text(env.llm_model),
                optional_text(env.ollama_model),
                optional_text(file.model),
            ),
            "gemma4:26b"@,
        ),
        api_key: or_default(
            first_of(
                optional_text(env.llm_api_key),
                optional_text(env.ollama_api_key),
                optional_text(file.api_key),
            ),
            "local-ai"@,
        ),
        temperature: first_of(env.llm_temperature, file.temperature, None),
        max_tokens: first_of(
            number_in(env.llm_max_tokens, u64::MAX as nat),
            natural_u64(file.max_tokens),
            None,
        ),
        timeout_secs: or_default(
            first_of(
                number_in(env.llm_timeout, u64::MAX as nat),
                natural_u64(file.timeout_secs),
                None,
            ),
            300,
        ),
        max_history_turns: or_default(
            first_of(
                number_in(env.llm_max_history_turns, usize::MAX as nat),
                natural_usize(file.max_history_turns),
                None,
            ),
            50,
        ),
        max_sessions: or_default(
            first_of(
                number_in(env.llm_max_sessions, usize::MAX as nat),
                natural_usize(file.max_sessions),
                None,
            ),
            0,
        ),
        session_idle_timeout_secs: or_default(
            first_of(
                number_in(env.llm_session_idle_timeout, u64::MAX as nat),
                natural_u64(file.session_idle_timeout_secs),
                None,
            ),
            0,
        ),
        ollama_native: false,
    }
}

fn pick_text(
    a: Option<String>,
    b: Option<String>,
    c: Option<String>,
    default: &str,
) -> (r: String)
    ensures
        r@ == or_default(first_of(optional_text(a), optional_text(b), optional_text(c)), default@),
{
    match a {
        Some(s) => s,
        None => match b {
            Some(s) => s,
            None => match c {
                Some(s) => s,
                None => default.to_owned(),
            },
        },
    }
}

fn pick_number(variable: &Option<String>, file: Option<u64>, max: u64) -> (r: Option<u64>)
    ensures
        natural_u64(r) == first_of(number_in(*variable, max as nat), natural_u64(file), None),
{
    match variable {
        Some(s) => match parse_unsigned(s.as_str(), max) {
            Some(n) => Some(n),
            None => file,
        },
        None => file,
    }
}

fn pick_size(variable: &Option<String>, file: Option<usize>, default: usize) -> (r: usize)
    ensures
        r == or_default(
            first_of(number_in(*variable, usize::MAX as nat), natural_usize(file), None),
            default as nat,
        ),
{
    let set: Option<u64> = match variable {
        Some(s) => parse_unsigned(s.as_str(), usize::MAX as u64),
        None => None,
    };
    match set {
        Some(n) => n as usize,
        None => match file {
            Some(n) => n,
            None => default,
        },
    }
}

impl ConfigFile {
    /// A file that sets nothing.
    pub fn empty() -> (r: ConfigFile)
        ensures
            r == no_settings(),
    {
        ConfigFile {
            base_url: None,
            model: None,
            api_key: None,
            temperature: None,
            max_tokens: None,
            timeout_secs: None,
            max_history_turns: None,
            max_sessions: None,
            session_idle_timeout_secs: None,
        }
    }

    /// The settings that the file and the environment make up.
    pub fn into_llm_config(self, env: Environment) -> (r: LlmConfig)
        ensures
            r@ == configured(env, self),
    {
        LlmConfig {
            base_url: pick_text(
                env.llm_base_url,
                env.ollama_base_url,
                self.base_url,
                "http://localhost:11434/v1",
            ),
            model: pick_text(env.llm_model, env.ollama_model, self.model, "gemma4:26b"),
            api_key: pick_text(env.llm_api_key, env.ollama_api_key, self.api_key, "local-ai"),
            temperature: match env.llm_temperature {
                Some(t) => Some(t),
                None => self.temperature,
            },
            max_tokens: pick_number(&env.llm_max_tokens, self.max_tokens, u64::MAX),
            timeout_secs: match pick_number(&env.llm_timeout, self.timeout_secs, u64::MAX) {
                Some(n) => n,
                None => 300,
            },
            max_history_turns: pick_size(&env.llm_max_history_turns, self.max_history_turns, 50),
            max_sessions: pick_size(&env.llm_max_sessions, self.max_sessions, 0),
            session_idle_timeout_secs: match pick_number(
                &env.llm_session_idle_timeout,
                self.session_idle_timeout_secs,
                u64::MAX,
            ) {
                Some(n) => n,
                None => 0,
            },
            ollama_native: false,
        }
    }
}

/// A file that sets nothing.
pub open spec fn no_settings() -> ConfigFile {
    ConfigFile {
        base_url: None,
        model: None,
        api_key: None,
        temperature: None,
        max_tokens: None,
        timeout_secs: None,
        max_history_turns: None,
        max_sessions: None,
        session_idle_timeout_secs: None,
    }
}

/// The settings that an environment alone makes up.
pub open spec fn from_environment(env: Environment) -> LlmConfigView {
    configured(env, no_settings())
}

/// What the environment sets goes before what a file says: the file makes no difference to it.
pub proof fn the_environment_comes_first(env: Environment, one: ConfigFile, other: ConfigFile)
    ensures
        ({
            let a = configured(env, one);
            let b = configured(env, other);
            let u64_max = u64::MAX as nat;
            let usize_max = usize::MAX as nat;
            &&& env.llm_base_url is Some || env.ollama_base_url is Some ==> a.base_url
                == b.base_url
            &&& env.llm_model is Some || env.ollama_model is Some ==> a.model == b.model
            &&& env.llm_api_key is Some || env.ollama_api_key is Some ==> a.api_key == b.api_key
            &&& env.llm_temperature is Some ==> a.temperature == b.temperature
            &&& number_in(env.llm_max_tokens, u64_max) is Some ==> a.max_tokens == b.max_tokens
            &&& number_in(env.llm_timeout, u64_max) is Some ==> a.timeout_secs == b.timeout_secs
            &&& number_in(env.llm_max_history_turns, usize_max) is Some ==> a.max_history_turns
                == b.max_history_turns
            &&& number_in(env.llm_max_sessions, usize_max) is Some ==> a.max_sessions
                == b.max_sessions
            &&& number_in(env.llm_session_idle_timeout, u64_max) is Some
                ==> a.session_idle_timeout_secs == b.session_idle_timeout_secs
        }),
{
}

/// What a file says goes before the defaults: where the environment is silent, it stands.
pub proof fn the_file_comes_next(env: Environment, file: ConfigFile)
    ensures
        ({
            let c = configured(env, file);
            let u64_max = u64::MAX as nat;
            let usize_max = usize::MAX as nat;
            &&& env.llm_base_url is None && env.ollama_base_url is None && file.base_url is Some
                ==> c.base_url == file.base_url->0@
            &&& env.llm_model is None && env.ollama_model is None && file.model is Some ==> c.model
                == file.model->0@
            &&& env.llm_api_key is None && env.ollama_api_key is None && file.api_key is Some
                ==> c.api_key == file.api_key->0@
            &&& env.llm_temperature is None ==> c.temperature == file.temperature
            &&& number_in(env.llm_max_tokens, u64_max) is None ==> c.max_tokens == natural_u64(
                file.max_tokens,
            )
            &&& number_in(env.llm_timeout, u64_max) is None && file.timeout_secs is Some
                ==> c.timeout_secs == file.timeout_secs->0
            &&& number_in(env.llm_max_history_turns, usize_max) is None
                && file.max_history_turns is Some ==> c.max_history_turns
                == file.max_history_turns->0
            &&& number_in(env.llm_max_sessions, usize_max) is None && file.max_sessions is Some
                ==> c.max_sessions == file.max_sessions->0
            &&& number_in(env.llm_session_idle_timeout, u64_max) is None
                && file.session_idle_timeout_secs is Some ==> c.session_idle_timeout_secs
                == file.session_idle_timeout_secs->0
        }),
{
}

/// What the environment sets is what counts: the newer of two names before the older, texts as they
/// are, and numbers where the text is one.
pub proof fn the_environment_is_heard(env: Environment, file: ConfigFile)
    ensures
        ({
            let c = configured(env, file);
            &&& env.llm_base_url is Some ==> c.base_url == env.llm_base_url->0@
            &&& env.llm_base_url is None && env.ollama_base_url is Some ==> c.base_url
                == env.ollama_base_url->0@
            &&& env.llm_model is Some ==> c.model == env.llm_model->0@
            &&& env.llm_model is None && env.ollama_model is Some ==> c.model
                == env.ollama_model->0@
            &&& env.llm_api_key is Some ==> c.api_key == env.llm_api_key->0@
            &&& env.llm_api_key is None && env.ollama_api_key is Some ==> c.api_key
                == env.ollama_api_key->0@
            &&& env.llm_temperature is Some ==> c.temperature == env.llm_temperature
        }),
        forall|n: nat|
            #![trigger decimal(n)]
            ({
                let c = configured(env, file);
                let says = |variable: Option<String>|
                    variable is Some && variable->0@ == decimal(n);
                &&& says(env.llm_max_tokens) && n <= u64::MAX ==> c.max_tokens == Some(n)
                &&& says(env.llm_timeout) && n <= u64::MAX ==> c.timeout_secs == n
                &&& says(env.llm_max_history_turns) && n <= usize::MAX ==> c.max_history_turns == n
                &&& says(env.llm_max_sessions) && n <= usize::MAX ==> c.max_sessions == n
                &&& says(env.llm_session_idle_timeout) && n <= u64::MAX
                    ==> c.session_idle_timeout_secs == n
            }),
{
    assert forall|n: nat|
        #![trigger decimal(n)]
        unsigned_value(decimal(n), u64::MAX as nat) == (if n <= u64::MAX {
            Some(n)
        } else {
            None
        }) && unsigned_value(decimal(n), usize::MAX as nat) == (if n <= usize::MAX {
            Some(n)
        } else {
            None
        }) by {
        numbers_are_read_as_written(n, u64::MAX as nat);
        numbers_are_read_as_written(n, usize::MAX as nat);
    }
}

/// A variable sets a number just where its text denotes one, and a file's numbers are what they are.
pub proof fn numbers_are_taken_as_they_are(
    text: String,
    max: nat,
    small: u64,
    size: usize,
)
    ensures
        number_in(Some(text), max) == unsigned_value(text@, max),
        number_in(None, max) is None,
        natural_u64(Some(small)) == Some(small as nat),
        natural_u64(None) is None,
        natural_usize(Some(size)) == Some(size as nat),
        natural_usize(None) is None,
{
}

/// Where neither the environment nor the file sets anything, the defaults stand.
pub proof fn defaults_fill_the_rest(env: Environment, file: ConfigFile)
    ensures
        ({
            let c = configured(env, file);
            let u64_max = u64::MAX as nat;
            let usize_max = usize::MAX as nat;
            let silent = |variable: Option<String>, max: nat|
                variable is None || unsigned_value(variable->0@, max) is None;
            &&& env.llm_base_url is None && env.ollama_base_url is None && file.base_url is None
                ==> c.base_url == "http://localhost:11434/v1"@
            &&& env.llm_model is None && env.ollama_model is None && file.model is None ==> c.model
                == "gemma4:26b"@
            &&& env.llm_api_key is None && env.ollama_api_key is None && file.api_key is None
                ==> c.api_key == "local-ai"@
            &&& env.llm_temperature is None && file.temperature is None ==> c.temperature is None
            &&& silent(env.llm_max_tokens, u64_max) && file.max_tokens is None
                ==> c.max_tokens is None
            &&& silent(env.llm_timeout, u64_max) && file.timeout_secs is None ==> c.timeout_secs
                == 300
            &&& silent(env.llm_max_history_turns, usize_max) && file.max_history_turns is None
                ==> c.max_history_turns == 50
            &&& silent(env.llm_max_sessions, usize_max) && file.max_sessions is None
                ==> c.max_sessions == 0
            &&& silent(env.llm_session_idle_timeout, u64_max)
                && file.session_idle_timeout_secs is None ==> c.session_idle_timeout_secs == 0
        }),
{
}

} // verus!
