//! The request body and the reply shapes that this client reads.

use vstd::prelude::*;
use crate::completion::chat_config::{ChatConfig, config_entries};
use crate::json::{
    Json, JsonView, append_entries, clone_items, entries_view, items_view, json_array, json_str,
    object_from_entries, object_of, opt_str_view,
};
use crate::types::error::Error;

verus! {

/// The body of a chat completion request, before it is turned into JSON.
pub struct ChatRequest<'a> {
    pub model: &'a str,
    pub messages: Vec<Json>,
    /// Written only when true.
    pub stream: bool,
    /// Generation parameters, whose fields stand at the top level of the body.
    pub config: &'a ChatConfig,
}

/// Whether `b` is false: the `stream` field is left out of a body then.
pub fn is_false(b: &bool) -> (r: bool)
    ensures
        r == !*b,
{
    !*b
}

/// The entries of a request body, in the order they are written.
pub open spec fn request_entries<'a>(r: ChatRequest<'a>) -> Seq<(Seq<char>, JsonView)> {
    seq![("model"@, JsonView::Str(r.model@)), ("messages"@, JsonView::Array(items_view(r.messages@)))]
        + if r.stream {
        seq![("stream"@, JsonView::Bool(true))]
    } else {
        Seq::empty()
    } + config_entries(*r.config)
}

impl<'a> ChatRequest<'a> {
    /// The request as the JSON body sent to `/chat/completions`.
    pub fn to_json(&self) -> (r: Json)
        ensures
            r@ == object_of(request_entries(*self)),
    {
        let mut es: Vec<(String, Json)> = Vec::new();
        es.push((String::from_str("model"), json_str(self.model)));
        es.push((String::from_str("messages"), json_array(clone_items(&self.messages))));
        if !is_false(&self.stream) {
            es.push((String::from_str("stream"), Json::Bool(self.stream)));
        }
        let ghost own = es@;
        let config_es = self.config.body_entries();
        append_entries(&mut es, &config_es);
        proof {
            assert(entries_view(own) =~= seq![
                ("model"@, JsonView::Str(self.model@)),
                ("messages"@, JsonView::Array(items_view(self.messages@))),
            ] + if self.stream {
                seq![("stream"@, JsonView::Bool(true))]
            } else {
                Seq::empty()
            });
        }
        object_from_entries(&es)
    }
}

/// A chat completion reply, as far as this client reads it.
#[derive(Debug, Clone)]
pub struct ChatResponse {
    pub choices: Vec<Choice>,
}

#[derive(Debug, Clone)]
pub struct Choice {
    pub message: AssistantMessage,
}

#[derive(Debug, Clone)]
pub struct AssistantMessage {
    pub content: Option<String>,
    pub refusal: Option<String>,
}

/// A streamed chunk, as far as this client reads it.
#[derive(Debug)]
pub struct ChatChunk {
    pub choices: Vec<ChunkChoice>,
}

#[derive(Debug)]
pub struct ChunkChoice {
    pub delta: Delta,
}

#[derive(Debug)]
pub struct Delta {
    pub content: Option<String>,
}

impl ChatChunk {
    /// The content delta of the first choice, if there is one.
    pub fn content_delta(&self) -> (r: Option<&str>)
        ensures
            match r {
                Some(s) => self.choices@.len() > 0 && opt_str_view(self.choices@[0].delta.content)
                    == Some(s@),
                None => self.choices@.len() == 0 || self.choices@[0].delta.content is None,
            },
    {
        if self.choices.len() == 0 {
            return None;
        }
        match &self.choices[0].delta.content {
            Some(s) => Some(s.as_str()),
            None => None,
        }
    }
}

/// Whether `r` is the reply text of `choices`, read as this client reads
/// it: no choice is `NoChoices`; a refusal in the first choice is an `Api`
/// error carrying it; else its content, or an `Api` error saying `missing`.
pub open spec fn is_reply(choices: Seq<Choice>, missing: Seq<char>, r: Result<String, Error>) -> bool {
    if choices.len() == 0 {
        r matches Err(Error::NoChoices)
    } else {
        let m = choices[0].message;
        match m.refusal {
            Some(f) => r matches Err(Error::Api(e)) && e@ == f@,
            None => match m.content {
                Some(c) => r matches Ok(s) && s@ == c@,
                None => r matches Err(Error::Api(e)) && e@ == missing,
            },
        }
    }
}

impl ChatResponse {
    fn reply(&self, missing: &str) -> (r: Result<String, Error>)
        ensures
            is_reply(self.choices@, missing@, r),
    {
        if self.choices.len() == 0 {
            return Err(Error::NoChoices);
        }
        let msg = &self.choices[0].message;
        match &msg.refusal {
            Some(refusal) => Err(Error::Api(refusal.clone())),
            None => match &msg.content {
                Some(c) => Ok(c.clone()),
                None => Err(Error::Api(String::from_str(missing))),
            },
        }
    }

    /// The assistant's text, as a chat reply: a missing content is an `Api`
    /// error "assistant message contained no content".
    pub fn chat_reply(&self) -> (r: Result<String, Error>)
        ensures
            is_reply(self.choices@, "assistant message contained no content"@, r),
    {
        self.reply("assistant message contained no content")
    }

    /// The assistant's text, which structured output is parsed from: a
    /// missing content is an `Api` error "no content".
    pub fn structured_reply(&self) -> (r: Result<String, Error>)
        ensures
            is_reply(self.choices@, "no content"@, r),
    {
        self.reply("no content")
    }
}

} // verus!
