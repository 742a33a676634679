//! The JSON body of a chat completion request.

use vstd::prelude::*;
use crate::json::{
    Json, JsonView, append_entries, clone_items, entries_view, items_view, json_array, json_str, object_from_entries,
    object_of,
};
use super::chat_config::{ChatConfig, config_entries};

verus! {

/// The body of a chat completion request, before it is turned into JSON.
pub struct ChatRequest<'a> {
    /// The model to use (e.g. `"gpt-4o"`, `"deepseek-chat"`).
    pub model: &'a str,
    /// Conversation history in OpenAI message format.
    pub messages: Vec<Json>,
    /// Whether to stream tokens via SSE.
    pub stream: bool,
    /// Options for streaming (e.g. `include_usage`); left out when `None`.
    pub stream_options: Option<Json>,
    /// JSON Schema to constrain the model output; left out when `None`.
    pub response_format: Option<Json>,
    /// Generation parameters, whose fields stand at the top level of the body.
    pub config: &'a ChatConfig,
}

/// A one-entry list when `v` is set, an empty one otherwise.
pub open spec fn optional_entry(key: Seq<char>, v: Option<Json>) -> Seq<(Seq<char>, JsonView)> {
    match v {
        Some(j) => seq![(key, j@)],
        None => Seq::empty(),
    }
}

/// The entries of a request body, in the order they are written: a later
/// entry for a key replaces an earlier one.
pub open spec fn request_entries<'a>(r: ChatRequest<'a>) -> Seq<(Seq<char>, JsonView)> {
    seq![
        ("model"@, JsonView::Str(r.model@)),
        ("messages"@, JsonView::Array(items_view(r.messages@))),
        ("stream"@, JsonView::Bool(r.stream)),
    ] + optional_entry("stream_options"@, r.stream_options) + optional_entry(
        "response_format"@,
        r.response_format,
    ) + config_entries(*r.config)
}

impl<'a> ChatRequest<'a> {
    /// The request as the JSON body sent to `/chat/completions`: the
    /// configuration's fields are written at the top level, after the
    /// request's own.
    pub fn to_json(&self) -> (r: Json)
        ensures
            r@ == object_of(request_entries(*self)),
    {
        let mut es: Vec<(String, Json)> = Vec::new();
        es.push((String::from_str("model"), json_str(self.model)));
        es.push((String::from_str("messages"), json_array(clone_items(&self.messages))));
        es.push((String::from_str("stream"), Json::Bool(self.stream)));
        match &self.stream_options {
            Some(o) => es.push((String::from_str("stream_options"), o.clone())),
            None => {},
        }
        match &self.response_format {
            Some(o) => es.push((String::from_str("response_format"), o.clone())),
            None => {},
        }
        let ghost own = es@;
        let config_es = self.config.body_entries();
        append_entries(&mut es, &config_es);
        proof {
            assert(entries_view(own) =~= seq![
                ("model"@, JsonView::Str(self.model@)),
                ("messages"@, JsonView::Array(items_view(self.messages@))),
                ("stream"@, JsonView::Bool(self.stream)),
            ] + optional_entry("stream_options"@, self.stream_options) + optional_entry(
                "response_format"@,
                self.response_format,
            ));
        }
        object_from_entries(&es)
    }
}

} // verus!
