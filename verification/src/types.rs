//! Messages, their content, and the crate's error type.

pub mod content_part;
pub mod error;
pub mod message;
pub mod role;

pub use content_part::{ContentPart, ImageFormat};
pub use error::Error;
pub use message::Message;
pub use role::Role;
