//! A bridge between the Agent Client Protocol and language models behind an OpenAI-compatible
//! HTTP API.
//!
//! A client speaks JSON-RPC to the bridge, one message to a line, and the bridge asks a language
//! model on its behalf. This library decides what to do with each request, what to send and what
//! to keep. Reading lines, writing lines, sending HTTP requests, running tools and telling the
//! time are left to the caller, who hands in what came of them.
//!
//! - [`dispatch`] takes a request to its handler and states what holds of all of them.
//! - [`bridge`] holds the state and handles all requests but prompts.
//! - [`turn`] is the course of a prompt: questions to the model, tool calls, the answer.
//! - [`protocol`], [`sessions`] and [`options`] are the data that these work on.
//! - [`acp`] makes the messages to the client.
//! - [`llm`] and [`stream`] make requests to the model and read its responses.
//! - [`config`] puts the settings together.
//! - [`json`], [`text`] and [`ids`] are the means.

pub mod acp;
pub mod bridge;
pub mod config;
pub mod dispatch;
pub mod ids;
pub mod json;
pub mod llm;
pub mod options;
pub mod protocol;
pub mod sessions;
pub mod stream;
pub mod text;
pub mod turn;
