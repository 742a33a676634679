//! The [`LLMClient`]: what it sends, where, and what it makes of the
//! events of a streamed reply.

use vstd::prelude::*;
use vstd::utf8::encode_utf8;
use reqwest::header::HeaderMap;
use crate::headers::{header_map_entries, is_header_value_text, no_headers};
use crate::json::{Json, JsonView, empty_object, items_view, json_str, object_of};
use crate::text::{last_path_segment, last_path_segment_of, str_eq};
use crate::transport::{
    authorization_headers, authorization_name, bearer_text, chat_endpoint, chat_endpoint_spec,
};
use crate::types::error::Error;
use crate::types::message::{Message, messages_json, messages_to_oai_json};
use super::chat_config::{ChatConfig};
use super::request::{ChatRequest, request_entries};
use super::response::{StreamChunk, reads_as_chunk};
use crate::json_text::{json_text_value, parse_json_text};

verus! {

/// Client for OpenAI-compatible chat completion APIs.
///
/// It holds what every request needs: the model, the base URL, the API key
/// and the generation parameters.
pub struct LLMClient {
    model: String,
    base_url: String,
    api_key: String,
    config: ChatConfig,
}

/// `{"include_usage": true}`, the stream options every request asks for.
pub open spec fn include_usage_options() -> JsonView {
    object_of(seq![("include_usage"@, JsonView::Bool(true))])
}

/// The `response_format` that constrains a reply to `schema`, under the
/// name `name`.
pub open spec fn schema_format(name: Seq<char>, schema: JsonView) -> JsonView {
    object_of(
        seq![
            ("type"@, JsonView::Str("json_schema"@)),
            (
                "json_schema"@,
                object_of(
                    seq![
                        ("name"@, JsonView::Str(name)),
                        ("schema"@, schema),
                        ("strict"@, JsonView::Bool(true)),
                    ],
                ),
            ),
        ],
    )
}

/// The body of a request: the model, the messages in OpenAI form, whether
/// to stream, the stream options, the response format when there is one,
/// then the configuration's fields.
pub open spec fn body_spec(
    model: Seq<char>,
    messages: Seq<Message>,
    streaming: bool,
    response_format: Option<JsonView>,
    config: ChatConfig,
) -> JsonView {
    object_of(
        seq![
            ("model"@, JsonView::Str(model)),
            ("messages"@, JsonView::Array(messages_json(messages))),
            ("stream"@, JsonView::Bool(streaming)),
            ("stream_options"@, include_usage_options()),
        ] + match response_format {
            Some(rf) => seq![("response_format"@, rf)],
            None => Seq::empty(),
        } + super::chat_config::config_entries(config),
    )
}

fn include_usage() -> (r: Json)
    ensures
        r@ == include_usage_options(),
{
    let mut r = empty_object();
    r.insert(String::from_str("include_usage"), Json::Bool(true));
    proof {
        let es = seq![("include_usage"@, JsonView::Bool(true))];
        assert(es.drop_last() =~= Seq::empty());
        reveal_with_fuel(crate::json::with_entries, 2);
    }
    r
}

/// The `response_format` for a schema, named after the last segment of
/// the type name it was derived from.
pub fn schema_response_format(schema_type: &str, schema: Json) -> (r: Json)
    ensures
        r@ == schema_format(last_path_segment(schema_type@), schema@),
{
    let ghost sv = schema@;
    let name = last_path_segment_of(schema_type);
    let mut inner = empty_object();
    inner.insert(String::from_str("name"), json_str(name));
    inner.insert(String::from_str("schema"), schema);
    inner.insert(String::from_str("strict"), Json::Bool(true));
    let mut outer = empty_object();
    outer.insert(String::from_str("type"), json_str("json_schema"));
    outer.insert(String::from_str("json_schema"), inner);
    proof {
        let ies = seq![
            ("name"@, JsonView::Str(last_path_segment(schema_type@))),
            ("schema"@, sv),
            ("strict"@, JsonView::Bool(true)),
        ];
        assert(ies.drop_last().drop_last().drop_last() =~= Seq::empty());
        assert(ies.drop_last().drop_last() =~= seq![ies[0]]);
        assert(ies.drop_last() =~= seq![ies[0], ies[1]]);
        let oes = seq![
            ("type"@, JsonView::Str("json_schema"@)),
            ("json_schema"@, object_of(ies)),
        ];
        assert(oes.drop_last().drop_last() =~= Seq::empty());
        assert(oes.drop_last() =~= seq![oes[0]]);
        reveal_with_fuel(crate::json::with_entries, 4);
    }
    outer
}

impl LLMClient {
    /// The model requests name.
    pub closed spec fn model_text(&self) -> Seq<char> {
        self.model@
    }

    /// The base URL of the API.
    pub closed spec fn base_url_text(&self) -> Seq<char> {
        self.base_url@
    }

    /// The API key sent as a bearer token.
    pub closed spec fn api_key_text(&self) -> Seq<char> {
        self.api_key@
    }

    /// The generation parameters of every request.
    pub closed spec fn chat_config(&self) -> ChatConfig {
        self.config
    }

    /// Creates a new `LLMClient`.
    ///
    /// `oai_compat_base_url` should be the base URL of an OpenAI-compatible
    /// chat completions endpoint (e.g. `http://localhost:8080/v1`).
    pub fn new(model: String, oai_compat_base_url: String, api_key: String, chat_config: ChatConfig) -> (r:
        Self)
        ensures
            r.model_text() == model@,
            r.base_url_text() == oai_compat_base_url@,
            r.api_key_text() == api_key@,
            r.chat_config() == chat_config,
    {
        LLMClient { model, base_url: oai_compat_base_url, api_key, config: chat_config }
    }

    fn body(&self, messages: &[Message], streaming: bool, response_format: Option<Json>) -> (r: Json)
        ensures
            r@ == body_spec(
                self.model_text(),
                messages@,
                streaming,
                match response_format {
                    Some(rf) => Some(rf@),
                    None => None,
                },
                self.chat_config(),
            ),
    {
        let msgs = messages_to_oai_json(messages);
        let ghost mv = items_view(msgs@);
        assert(mv =~= messages_json(messages@));
        let request = ChatRequest {
            model: self.model.as_str(),
            messages: msgs,
            stream: streaming,
            stream_options: Some(include_usage()),
            response_format,
            config: &self.config,
        };
        let r = request.to_json();
        proof {
            assert(request_entries(request) =~= seq![
                ("model"@, JsonView::Str(self.model_text())),
                ("messages"@, JsonView::Array(messages_json(messages@))),
                ("stream"@, JsonView::Bool(streaming)),
                ("stream_options"@, include_usage_options()),
            ] + match response_format {
                Some(rf) => seq![("response_format"@, rf@)],
                None => Seq::empty(),
            } + super::chat_config::config_entries(self.chat_config()));
        }
        r
    }

    /// The JSON body of a plain (non-schema) chat request; it always asks
    /// for `stream_options: {"include_usage": true}`. Never fails.
    pub fn get_body(&self, messages: &[Message], streaming: bool) -> (r: Result<Json, Error>)
        ensures
            r matches Ok(b) && b@ == body_spec(
                self.model_text(),
                messages@,
                streaming,
                None,
                self.chat_config(),
            ),
    {
        Ok(self.body(messages, streaming, None))
    }

    /// The JSON body of a structured-output request: as [`Self::get_body`],
    /// with the `response_format` that constrains the reply to `schema`,
    /// named after the last "::" segment of `schema_type`. A
    /// `response_format` set in the configuration is written later and so
    /// takes its place. Never fails.
    pub fn get_body_with_response_schema(
        &self,
        messages: &[Message],
        streaming: bool,
        schema_type: &str,
        schema: Json,
    ) -> (r: Result<Json, Error>)
        ensures
            r matches Ok(b) && b@ == body_spec(
                self.model_text(),
                messages@,
                streaming,
                Some(schema_format(last_path_segment(schema_type@), schema@)),
                self.chat_config(),
            ),
    {
        let rf = schema_response_format(schema_type, schema);
        Ok(self.body(messages, streaming, Some(rf)))
    }

    /// The full `/chat/completions` URL for this client's base URL.
    pub fn get_chat_endpoint(&self) -> (r: String)
        ensures
            r@ == chat_endpoint_spec(self.base_url_text()),
    {
        chat_endpoint(self.base_url.as_str())
    }

    /// The HTTP headers of an API request: `Authorization: Bearer <key>`;
    /// `InvalidHeader` when the key makes that an invalid header value.
    pub fn get_headers(&self) -> (r: Result<HeaderMap, Error>)
        ensures
            r is Ok <==> is_header_value_text(bearer_text(self.api_key_text())),
            match r {
                Ok(m) => header_map_entries(m) == no_headers().insert(
                    authorization_name(),
                    encode_utf8(bearer_text(self.api_key_text())),
                ),
                Err(e) => e is InvalidHeader,
            },
    {
        authorization_headers(self.api_key.as_str())
    }
}

/// What to do after an event of a streamed reply.
pub enum StreamAction {
    /// Stop reading; nothing more is sent.
    Stop,
    /// Send this item and go on reading.
    Send(Result<StreamChunk, Error>),
    /// Send this error and stop reading.
    SendErrorAndStop(Error),
}

/// The decision on an event's data, when it is not `[DONE]`: data that is
/// not JSON is sent as a `Serialization` error and ends the stream; JSON is
/// read as a [`StreamChunk`] (see [`StreamChunk::from_oai_chat_chunk`]) and
/// the result, chunk or error, is sent.
pub fn on_stream_data(data: &str) -> (r: StreamAction)
    ensures
        match json_text_value(data@) {
            None => r matches StreamAction::SendErrorAndStop(Error::Serialization(_)),
            Some(v) => r matches StreamAction::Send(item) && reads_as_chunk(v, item),
        },
{
    match parse_json_text(data) {
        Err(e) => StreamAction::SendErrorAndStop(Error::Serialization(e)),
        Ok(json) => StreamAction::Send(StreamChunk::from_oai_chat_chunk(json)),
    }
}

/// The decision on an SSE event: `Ok` with the event's data, or `Err` with
/// the text of the error that reading the stream met.
///
/// An error is sent as `Api` and ends the stream; the data `[DONE]` ends it
/// quietly; any other data is decided by [`on_stream_data`].
pub fn on_stream_event(event: Result<String, String>) -> (r: StreamAction)
    ensures
        match event {
            Err(msg) => r matches StreamAction::SendErrorAndStop(Error::Api(m)) && m@ == msg@,
            Ok(data) => if data@ == "[DONE]"@ {
                r is Stop
            } else {
                match json_text_value(data@) {
                    None => r matches StreamAction::SendErrorAndStop(Error::Serialization(_)),
                    Some(v) => r matches StreamAction::Send(item) && reads_as_chunk(v, item),
                }
            },
        },
{
    match event {
        Err(msg) => StreamAction::SendErrorAndStop(Error::Api(msg)),
        Ok(data) => if str_eq(data.as_str(), "[DONE]") {
            StreamAction::Stop
        } else {
            on_stream_data(data.as_str())
        },
    }
}

} // verus!
