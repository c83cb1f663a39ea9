# acp-bridge

A bridge between clients that speak the [Agent Client Protocol](https://agentclientprotocol.com)
and language models behind an OpenAI-compatible HTTP API: Ollama, LocalAI, vLLM, llama.cpp,
LM Studio and others. It reads JSON-RPC 2.0 from stdin, asks the model, and writes notifications
and responses to stdout.

The logic is a library written in [Verus](https://github.com/verus-lang/verus): what each function
returns or changes is stated in its contract and proved.

## Layout

- `src/` is the library. `dispatch.rs` is the place to start: it says what every request leads to,
  and what holds of all of them (each is answered once, a refused one changes nothing, the session
  limit is kept). `turn.rs` does the same for prompts.
- `app/` is the program around it: stdin and stdout, HTTP, locks, signals, settings.
- `tests/` runs the library on concrete values, with a mock backend in place of the model.

What the library takes on trust is marked `external_body`, `assume_specification` or
`external_type_specification`, and each such item says which function it stands for.

## Settings

`acp-bridge [config.toml]`. A variable goes before the file, the file before the default.

| Variable | File | Default |
| --- | --- | --- |
| `LLM_BASE_URL`, `OLLAMA_BASE_URL` | `base_url` | `http://localhost:11434/v1` |
| `LLM_MODEL`, `OLLAMA_MODEL` | `model` | `gemma4:26b` |
| `LLM_API_KEY`, `OLLAMA_API_KEY` | `api_key` | `local-ai` |
| `LLM_TEMPERATURE` (0 to 2) | `temperature` | none |
| `LLM_MAX_TOKENS` | `max_tokens` | none |
| `LLM_TIMEOUT` (seconds) | `timeout_secs` | 300 |
| `LLM_MAX_HISTORY_TURNS` (0 keeps all) | `max_history_turns` | 50 |
| `LLM_MAX_SESSIONS` (0 sets no limit) | `max_sessions` | 0 |
| `LLM_SESSION_IDLE_TIMEOUT` (seconds, 0 closes none) | `session_idle_timeout_secs` | 0 |
| `LLM_SYSTEM_PROMPT` | | tells the working directory |
| `RUST_LOG` | | `acp_bridge=info` |
