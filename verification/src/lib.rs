//! A client for OpenAI-compatible chat completion APIs (OpenAI, vLLM,
//! Ollama, DeepSeek, ...): the messages and request bodies it sends, the
//! endpoint and headers it sends them with, and how it reads the replies,
//! whole or streamed as server-sent events.

pub mod client;
pub mod completion;
pub mod headers;
pub mod json;
pub mod json_text;
pub mod laws;
pub mod text;
pub mod transport;
pub mod types;

pub use completion::{ChatConfig, LLMClient};
pub use types::{ContentPart, Error, ImageFormat, Message, Role};
pub use types as message;
