//! The client, what it sends and where, and how it reads the lines of a
//! streamed reply.

use vstd::prelude::*;
use vstd::utf8::encode_utf8;
use reqwest::header::HeaderMap;
use crate::completion::chat_config::{ChatConfig};
use crate::completion::client::{schema_format, schema_response_format};
use crate::headers::{header_map_entries, is_header_value_text, no_headers};
use crate::json::{Json, JsonView};
use crate::text::{last_path_segment, str_eq, strip_prefix, trim_end_spec, utf8_lossy, utf8_lossy_text};
use crate::transport::{
    authorization_headers, authorization_name, bearer_text, chat_endpoint, chat_endpoint_spec,
};
use crate::types::error::Error;
use crate::types::message::{Message, messages_json, messages_to_oai_json};
use super::chat::{ChatRequest, request_entries};

verus! {

/// Client for OpenAI-compatible chat completion APIs, whose replies are
/// the assistant's text.
pub struct LLMClient {
    model: String,
    base_url: String,
    api_key: String,
    config: ChatConfig,
}

/// The body of a request: the model, the messages in OpenAI form, then the
/// configuration's fields; `stream` is not written.
pub open spec fn plain_body_spec(model: Seq<char>, messages: Seq<Message>, config: ChatConfig) -> JsonView {
    crate::json::object_of(
        seq![("model"@, JsonView::Str(model)), ("messages"@, JsonView::Array(messages_json(messages)))]
            + crate::completion::chat_config::config_entries(config),
    )
}

impl LLMClient {
    /// The model requests name.
    pub closed spec fn model_text(&self) -> Seq<char> {
        self.model@
    }

    /// The base URL of the API.
    pub closed spec fn base_url_text(&self) -> Seq<char> {
        self.base_url@
    }

    /// The API key sent as a bearer token.
    pub closed spec fn api_key_text(&self) -> Seq<char> {
        self.api_key@
    }

    /// The generation parameters of every request.
    pub closed spec fn chat_config(&self) -> ChatConfig {
        self.config
    }

    /// Creates a new `LLMClient`.
    ///
    /// `oai_compat_base_url` should be the base URL of an OpenAI-compatible
    /// chat completions endpoint (e.g. `http://localhost:8080/v1`).
    pub fn new(model: String, oai_compat_base_url: String, api_key: String, chat_config: ChatConfig) -> (r:
        Self)
        ensures
            r.model_text() == model@,
            r.base_url_text() == oai_compat_base_url@,
            r.api_key_text() == api_key@,
            r.chat_config() == chat_config,
    {
        LLMClient { model, base_url: oai_compat_base_url, api_key, config: chat_config }
    }

    /// The JSON body of a non-streaming, non-structured request. Never fails.
    pub fn get_body(&self, messages: &[Message]) -> (r: Result<Json, Error>)
        ensures
            r matches Ok(b) && b@ == plain_body_spec(self.model_text(), messages@, self.chat_config()),
    {
        let msgs = messages_to_oai_json(messages);
        let ghost mv = crate::json::items_view(msgs@);
        assert(mv =~= messages_json(messages@));
        let request = ChatRequest {
            model: self.model.as_str(),
            messages: msgs,
            stream: false,
            config: &self.config,
        };
        let r = request.to_json();
        proof {
            assert(request_entries(request) =~= seq![
                ("model"@, JsonView::Str(self.model_text())),
                ("messages"@, JsonView::Array(messages_json(messages@))),
            ] + crate::completion::chat_config::config_entries(self.chat_config()));
        }
        Ok(r)
    }

    /// The JSON body of a streaming request: the plain body with `stream`
    /// set, last, to true. Never fails.
    pub fn get_stream_body(&self, messages: &[Message]) -> (r: Result<Json, Error>)
        ensures
            r matches Ok(b) && b@ == plain_body_spec(
                self.model_text(),
                messages@,
                self.chat_config(),
            ).with_entry("stream"@, JsonView::Bool(true)),
    {
        let mut body = match self.get_body(messages) {
            Ok(b) => b,
            Err(e) => return Err(e),
        };
        proof {
            crate::json::lemma_object_of_get(
                seq![
                    ("model"@, JsonView::Str(self.model_text())),
                    ("messages"@, JsonView::Array(messages_json(messages@))),
                ] + crate::completion::chat_config::config_entries(self.chat_config()),
                "stream"@,
            );
        }
        body.insert(String::from_str("stream"), Json::Bool(true));
        Ok(body)
    }

    /// The full `/chat/completions` URL for this client's base URL.
    pub fn get_chat_endpoint(&self) -> (r: String)
        ensures
            r@ == chat_endpoint_spec(self.base_url_text()),
    {
        chat_endpoint(self.base_url.as_str())
    }

    /// The HTTP headers of an API request: `Authorization: Bearer <key>`;
    /// `InvalidHeader` when the key makes that an invalid header value.
    pub fn get_headers(&self) -> (r: Result<HeaderMap, Error>)
        ensures
            r is Ok <==> is_header_value_text(bearer_text(self.api_key_text())),
            match r {
                Ok(m) => header_map_entries(m) == no_headers().insert(
                    authorization_name(),
                    encode_utf8(bearer_text(self.api_key_text())),
                ),
                Err(e) => e is InvalidHeader,
            },
    {
        authorization_headers(self.api_key.as_str())
    }

    /// The JSON body of a structured-output request: the plain body with
    /// `response_format` set, last, to constrain the reply to `schema`,
    /// named after the last "::" segment of `schema_type`. It replaces a
    /// `response_format` of the configuration. Never fails.
    pub fn get_structured_body(&self, messages: &[Message], schema_type: &str, schema: Json) -> (r:
        Result<Json, Error>)
        ensures
            r matches Ok(b) && b@ == plain_body_spec(
                self.model_text(),
                messages@,
                self.chat_config(),
            ).with_entry("response_format"@, schema_format(last_path_segment(schema_type@), schema@)),
    {
        let mut body = match self.get_body(messages) {
            Ok(b) => b,
            Err(e) => return Err(e),
        };
        proof {
            crate::json::lemma_object_of_get(
                seq![
                    ("model"@, JsonView::Str(self.model_text())),
                    ("messages"@, JsonView::Array(messages_json(messages@))),
                ] + crate::completion::chat_config::config_entries(self.chat_config()),
                "response_format"@,
            );
        }
        body.insert(String::from_str("response_format"), schema_response_format(schema_type, schema));
        Ok(body)
    }
}

/// What a line of a streamed reply holds.
pub enum SseLine {
    /// Not a `data: ` line.
    Skip,
    /// The `data: [DONE]` line that ends the stream.
    Done,
    /// The data of a `data: ` line.
    Data(String),
}

/// Reads a line of a streamed reply: the text after a leading `data: `,
/// `Done` when that text is `[DONE]`, `Skip` for any other line.
pub fn sse_line(line: &str) -> (r: SseLine)
    ensures
        ({
            let p = "data: "@;
            if line@.len() >= p.len() && line@.subrange(0, p.len() as int) == p {
                let d = line@.subrange(p.len() as int, line@.len() as int);
                if d == "[DONE]"@ {
                    r is Done
                } else {
                    r matches SseLine::Data(s) && s@ == d
                }
            } else {
                r is Skip
            }
        }),
{
    match strip_prefix(line, "data: ") {
        Some(data) => if str_eq(data, "[DONE]") {
            SseLine::Done
        } else {
            SseLine::Data(String::from_str(data))
        },
        None => SseLine::Skip,
    }
}

/// Bytes of a streamed reply that have not yet been read as lines.
pub struct LineBuffer {
    buf: Vec<u8>,
}

/// The position of the first newline of `s`, or -1 when it has none.
pub open spec fn first_newline(s: Seq<u8>) -> int
    decreases s.len(),
{
    if s.len() == 0 {
        -1
    } else if s[0] == 10 {
        0
    } else {
        let i = first_newline(s.drop_first());
        if i < 0 {
            -1
        } else {
            i + 1
        }
    }
}

pub proof fn lemma_first_newline(s: Seq<u8>, i: int)
    requires
        0 <= i <= s.len(),
        forall|j: int| 0 <= j < i ==> #[trigger] s[j] != 10,
    ensures
        i < s.len() && s[i] == 10 ==> first_newline(s) == i,
        i == s.len() ==> first_newline(s) == -1,
    decreases i,
{
    if i > 0 {
        let t = s.drop_first();
        assert forall|j: int| 0 <= j < i - 1 implies #[trigger] t[j] != 10 by {
            assert(t[j] == s[j + 1]);
        }
        lemma_first_newline(t, i - 1);
        assert(s[0] != 10);
        if i < s.len() && s[i] == 10 {
            assert(t[i - 1] == s[i]);
        }
    }
}

/// The line that the bytes before a newline stand for: decoded as UTF-8
/// with invalid sequences replaced, without trailing carriage returns.
pub open spec fn line_text(bytes: Seq<u8>) -> Seq<char> {
    trim_end_spec(utf8_lossy_text(bytes), '\r')
}

/// The complete lines that buffered bytes hold, in order, and the bytes
/// left after the last newline: what taking lines out of a buffer until
/// there is none gives.
pub open spec fn complete_lines(s: Seq<u8>) -> (Seq<Seq<char>>, Seq<u8>)
    decreases s.len(),
{
    let p = first_newline(s);
    if p < 0 || p >= s.len() {
        (Seq::empty(), s)
    } else {
        let rest = complete_lines(s.subrange(p + 1, s.len() as int));
        (seq![line_text(s.subrange(0, p))] + rest.0, rest.1)
    }
}

impl View for LineBuffer {
    type V = Seq<u8>;

    closed spec fn view(&self) -> Seq<u8> {
        self.buf@
    }
}

impl LineBuffer {
    /// A buffer holding nothing.
    pub fn new() -> (r: Self)
        ensures
            r@ == Seq::<u8>::empty(),
    {
        LineBuffer { buf: Vec::new() }
    }

    /// Appends bytes received from the stream.
    pub fn extend(&mut self, bytes: &[u8])
        ensures
            final(self)@ == old(self)@ + bytes@,
    {
        let mut i: usize = 0;
        let ghost start = self.buf@;
        while i < bytes.len()
            invariant
                i <= bytes@.len(),
                self.buf@ == start + bytes@.subrange(0, i as int),
            decreases bytes@.len() - i,
        {
            self.buf.push(bytes[i]);
            assert(bytes@.subrange(0, i + 1) =~= bytes@.subrange(0, i as int).push(bytes@[i as int]));
            i = i + 1;
        }
        assert(bytes@.subrange(0, bytes@.len() as int) =~= bytes@);
    }

    /// Takes the first complete line out of the buffer: the bytes before
    /// the first newline, decoded as UTF-8 with invalid sequences replaced,
    /// without trailing carriage returns. The buffer keeps what follows the
    /// newline. `None`, and the buffer unchanged, when it holds no newline.
    pub fn next_line(&mut self) -> (r: Option<String>)
        ensures
            ({
                let p = first_newline(old(self)@);
                if p < 0 {
                    r is None && final(self)@ == old(self)@
                } else {
                    &&& r matches Some(line) && line@ == line_text(old(self)@.subrange(0, p))
                    &&& final(self)@ == old(self)@.subrange(p + 1, old(self)@.len() as int)
                }
            }),
    {
        let n = self.buf.len();
        let mut i: usize = 0;
        while i < n
            invariant
                n == self.buf@.len(),
                i <= n,
                forall|j: int| 0 <= j < i ==> #[trigger] self.buf@[j] != 10,
            ensures
                i <= n,
                forall|j: int| 0 <= j < i ==> #[trigger] self.buf@[j] != 10,
                i < n ==> self.buf@[i as int] == 10,
            decreases n - i,
        {
            if self.buf[i] == 10 {
                break;
            }
            i = i + 1;
        }
        proof {
            lemma_first_newline(self.buf@, i as int);
        }
        if i == n {
            return None;
        }
        let ghost all = self.buf@;
        let rest = self.buf.split_off(i + 1);
        self.buf.truncate(i);
        assert(self.buf@ =~= all.subrange(0, i as int));
        let text = utf8_lossy(self.buf.as_slice());
        let line = String::from_str(crate::text::trim_end_char(text.as_str(), '\r'));
        self.buf = rest;
        Some(line)
    }
}

} // verus!
