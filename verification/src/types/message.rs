//! A chat message: a role and the parts of its content.

use vstd::prelude::*;
use crate::json::{Json, JsonView, json_view, json_string};
use super::content_part::{ContentPart, content_part_json};
use super::role::{Role, role_name};

verus! {

/// A chat message exchanged with an OpenAI-compatible model.
#[derive(Clone)]
pub struct Message {
    /// The role of the message sender.
    pub role: Role,
    /// The content parts that make up the message.
    pub parts: Vec<ContentPart>,
}

/// The JSON forms of a sequence of content parts.
pub open spec fn parts_json(parts: Seq<ContentPart>) -> Seq<JsonView> {
    Seq::new(parts.len(), |i: int| content_part_json(parts[i]))
}

/// The OpenAI JSON form of a message.
pub open spec fn message_json(m: Message) -> JsonView {
    JsonView::Object(
        seq![
            ("role"@, JsonView::Str(role_name(m.role))),
            ("content"@, JsonView::Array(parts_json(m.parts@))),
        ],
    )
}

/// The JSON forms of a sequence of messages.
pub open spec fn messages_json(ms: Seq<Message>) -> Seq<JsonView> {
    Seq::new(ms.len(), |i: int| message_json(ms[i]))
}

impl Message {
    /// Converts this message into the JSON format of OpenAI-compatible chat
    /// completion APIs: `{"role": .., "content": [..]}`, each part converted
    /// by [`ContentPart::to_oai_json`].
    pub fn to_oai_json(&self) -> (r: Json)
        ensures
            r@ == message_json(*self),
    {
        let mut content: Vec<Json> = Vec::new();
        let mut i: usize = 0;
        while i < self.parts.len()
            invariant
                i <= self.parts.len(),
                content.len() == i,
                forall|k: int| 0 <= k < i ==> #[trigger] json_view(content[k]) == content_part_json(self.parts[k]),
            decreases self.parts.len() - i,
        {
            content.push(self.parts[i].to_oai_json());
            i = i + 1;
        }
        let ghost items = content;
        let content = Json::Array(content);
        assert(content@->Array_0 =~= parts_json(self.parts@)) by {
            let a = content@->Array_0;
            let b = parts_json(self.parts@);
            assert(a.len() == b.len());
            assert forall|k: int| 0 <= k < a.len() implies a[k] == b[k] by {
                assert(json_view(items[k]) == content_part_json(self.parts[k]));
            }
        }
        let mut entries: Vec<(String, Json)> = Vec::new();
        entries.push((String::from_str("role"), json_string(self.role.to_string())));
        entries.push((String::from_str("content"), content));
        let r = Json::Object(entries);
        assert(r@->Object_0 =~= message_json(*self)->Object_0);
        r
    }
}

/// The JSON forms of `messages`, in order.
pub fn messages_to_oai_json(messages: &[Message]) -> (r: Vec<Json>)
    ensures
        r.len() == messages@.len(),
        forall|k: int| 0 <= k < r.len() ==> #[trigger] json_view(r[k]) == message_json(messages@[k]),
{
    let mut out: Vec<Json> = Vec::new();
    let mut i: usize = 0;
    while i < messages.len()
        invariant
            i <= messages@.len(),
            out.len() == i,
            forall|k: int| 0 <= k < i ==> #[trigger] json_view(out[k]) == message_json(messages@[k]),
        decreases messages@.len() - i,
    {
        out.push(messages[i].to_oai_json());
        i = i + 1;
    }
    out
}

} // verus!
