//! Chat completion requests and responses, and the client that ties them
//! together.

pub mod chat_config;
pub mod client;
pub mod request;
pub mod response;

pub use chat_config::ChatConfig;
pub use client::LLMClient;
