//! The [`Role`] enum: who sent a message.

use vstd::prelude::*;

verus! {

/// The sender of a chat message, as the `role` field of the OpenAI
/// message format names it.
#[derive(Debug, Clone, Copy, PartialEq, Eq, Structural)]
pub enum Role {
    /// System prompt / instruction message.
    System,
    /// Model-generated response message.
    Assistant,
    /// End-user input message.
    User,
}

/// The name of a role on the wire.
pub open spec fn role_name(r: Role) -> Seq<char> {
    match r {
        Role::System => "system"@,
        Role::User => "user"@,
        Role::Assistant => "assistant"@,
    }
}

impl Role {
    /// The role's name as the API spells it: "system", "user" or "assistant".
    pub fn to_string(&self) -> (s: String)
        ensures
            s@ == role_name(*self),
    {
        match self {
            Role::System => String::from_str("system"),
            Role::User => String::from_str("user"),
            Role::Assistant => String::from_str("assistant"),
        }
    }
}

} // verus!
