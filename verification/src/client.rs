//! A simpler client whose replies are the assistant's text: whole, as
//! streamed deltas, or parsed as structured output.

pub mod chat;
pub mod llm_client;

pub use llm_client::LLMClient;
