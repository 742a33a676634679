//! Responses of the chat completion API: whole responses ([`ChatResponse`]),
//! streamed deltas ([`StreamChunk`]) and structured output
//! ([`ParsedResponse`]).

use vstd::prelude::*;
use crate::json::{Json, JsonNumber, JsonView, entry_value, opt_str_view};
use crate::text::str_eq;
use crate::types::error::{Error, json_decode_error};

verus! {

/// Why the model stopped generating.
#[derive(Debug, Clone, Copy, PartialEq, Eq, Structural)]
pub enum FinishReason {
    /// The model reached a natural stop point.
    Stop,
    /// The model hit the configured token limit.
    Length,
    /// The model called a tool/function.
    ToolCalls,
    /// Content was filtered by the API provider.
    ContentFilter,
    /// Any other / unrecognised finish reason.
    Unknown,
}

/// The finish reason that a name on the wire stands for.
pub open spec fn finish_reason_named(s: Seq<char>) -> FinishReason {
    if s == "stop"@ {
        FinishReason::Stop
    } else if s == "length"@ {
        FinishReason::Length
    } else if s == "tool_calls"@ {
        FinishReason::ToolCalls
    } else if s == "content_filter"@ {
        FinishReason::ContentFilter
    } else {
        FinishReason::Unknown
    }
}

impl FinishReason {
    /// The finish reason for a name on the wire ("stop", "length",
    /// "tool_calls", "content_filter"); any other name is `Unknown`.
    pub fn from_name(s: &str) -> (r: FinishReason)
        ensures
            r == finish_reason_named(s@),
    {
        if str_eq(s, "stop") {
            FinishReason::Stop
        } else if str_eq(s, "length") {
            FinishReason::Length
        } else if str_eq(s, "tool_calls") {
            FinishReason::ToolCalls
        } else if str_eq(s, "content_filter") {
            FinishReason::ContentFilter
        } else {
            FinishReason::Unknown
        }
    }
}

/// Token usage statistics returned by the API.
#[derive(Debug, Clone, Copy, PartialEq, Eq, Structural)]
pub struct Usage {
    /// Number of tokens in the prompt.
    pub prompt_tokens: u32,
    /// Number of tokens in the generated completion.
    pub completion_tokens: u32,
    pub total_tokens: u32,
}

/// A JSON value read as a 32-bit count: an integer from 0 to `u32::MAX`.
pub open spec fn json_u32(v: JsonView) -> Option<u32> {
    match v {
        JsonView::Number(JsonNumber::PosInt(n)) => if n <= u32::MAX {
            Some(n as u32)
        } else {
            None
        },
        JsonView::Number(JsonNumber::NegInt(n)) => if 0 <= n <= u32::MAX {
            Some(n as u32)
        } else {
            None
        },
        _ => None,
    }
}

/// A count read from an object's field: 0 when the field is missing.
pub open spec fn usage_field(entries: Seq<(Seq<char>, JsonView)>, name: Seq<char>) -> Option<u32> {
    match entry_value(entries, name) {
        Some(v) => json_u32(v),
        None => Some(0),
    }
}

/// A count read from an array's element: 0 when the array is shorter.
pub open spec fn usage_item(items: Seq<JsonView>, i: int) -> Option<u32> {
    if i < items.len() {
        json_u32(items[i])
    } else {
        Some(0)
    }
}

/// The usage statistics a JSON value stands for, or `None` when it cannot
/// be read as such: an object whose count fields are missing or hold
/// 32-bit counts (other fields are ignored), or an array of at most three
/// counts in field order.
pub open spec fn decode_usage(v: JsonView) -> Option<Usage> {
    match v {
        JsonView::Object(entries) => match (
            usage_field(entries, "prompt_tokens"@),
            usage_field(entries, "completion_tokens"@),
            usage_field(entries, "total_tokens"@),
        ) {
            (Some(p), Some(c), Some(t)) => Some(
                Usage { prompt_tokens: p, completion_tokens: c, total_tokens: t },
            ),
            _ => None,
        },
        JsonView::Array(items) => if items.len() <= 3 {
            match (usage_item(items, 0), usage_item(items, 1), usage_item(items, 2)) {
                (Some(p), Some(c), Some(t)) => Some(
                    Usage { prompt_tokens: p, completion_tokens: c, total_tokens: t },
                ),
                _ => None,
            }
        } else {
            None
        },
        _ => None,
    }
}

fn read_u32(v: &Json) -> (r: Option<u32>)
    ensures
        r == json_u32(v@),
{
    match v {
        Json::Number(JsonNumber::PosInt(n)) => if *n <= 0xffff_ffffu64 {
            Some(*n as u32)
        } else {
            None
        },
        Json::Number(JsonNumber::NegInt(n)) => if 0 <= *n && *n <= 0xffff_ffffi64 {
            Some(*n as u32)
        } else {
            None
        },
        _ => None,
    }
}

fn read_usage_field(v: &Json, name: &str) -> (r: Option<u32>)
    requires
        v@ is Object,
    ensures
        r == usage_field(v@->Object_0, name@),
{
    match v.get(name) {
        Some(x) => read_u32(x),
        None => Some(0),
    }
}

fn read_usage_item(items: &Vec<Json>, i: usize) -> (r: Option<u32>)
    ensures
        r == usage_item(json_view(Json::Array(*items))->Array_0, i as int),
{
    if i < items.len() {
        read_u32(&items[i])
    } else {
        Some(0)
    }
}

use crate::json::json_view;

/// Reads usage statistics from a JSON value; on failure, says why, in the
/// library's own words (not `serde_json`'s: the message is not stated).
pub fn read_usage(v: &Json) -> (r: Result<Usage, String>)
    ensures
        match r {
            Ok(u) => decode_usage(v@) == Some(u),
            Err(_) => decode_usage(v@) is None,
        },
{
    let fields = match v {
        Json::Object(_) => (
            read_usage_field(v, "prompt_tokens"),
            read_usage_field(v, "completion_tokens"),
            read_usage_field(v, "total_tokens"),
        ),
        Json::Array(items) => {
            if items.len() > 3 {
                return Err(String::from_str("invalid length, expected fewer elements in array"));
            }
            (read_usage_item(items, 0), read_usage_item(items, 1), read_usage_item(items, 2))
        },
        _ => {
            return Err(String::from_str("invalid type, expected struct Usage"));
        },
    };
    match fields {
        (Some(p), Some(c), Some(t)) => Ok(
            Usage { prompt_tokens: p, completion_tokens: c, total_tokens: t },
        ),
        _ => Err(String::from_str("invalid value, expected u32")),
    }
}

/// A non-streaming chat completion response.
///
/// Fields are optional because the API may omit them depending on the
/// model or provider.
#[derive(Debug, Clone)]
pub struct ChatResponse {
    /// Unique identifier for the completion.
    pub id: Option<String>,
    /// The assistant's response text.
    pub content: Option<String>,
    /// Reasoning / chain-of-thought tokens (provider-specific).
    pub reasoning: Option<String>,
    /// Refusal message when the model declines to respond.
    pub refusal: Option<String>,
    /// Why generation finished.
    pub finish_reason: Option<FinishReason>,
    /// Token usage, if reported.
    pub usage: Option<Usage>,
}

/// The choices of a response, when it has an array of them.
pub open spec fn choices_of(data: JsonView) -> Option<Seq<JsonView>> {
    data.at("choices"@).as_array()
}

/// Whether a response lacks a first choice.
pub open spec fn lacks_choice(data: JsonView) -> bool {
    match choices_of(data) {
        Some(cs) => cs.len() == 0,
        None => true,
    }
}

/// The `usage` field of a response, when it reports one: a missing field
/// and a `null` one (what providers send on every chunk but the last) both
/// report none.
pub open spec fn reported_usage(data: JsonView) -> Option<JsonView> {
    match data.get("usage"@) {
        Some(JsonView::Null) => None,
        other => other,
    }
}

/// Whether a response reports a `usage` that is not usage statistics.
pub open spec fn usage_unreadable(data: JsonView) -> bool {
    match reported_usage(data) {
        Some(u) => decode_usage(u) is None,
        None => false,
    }
}

/// The usage statistics a response reports.
pub open spec fn usage_of(data: JsonView) -> Option<Usage> {
    match reported_usage(data) {
        Some(u) => decode_usage(u),
        None => None,
    }
}

/// The finish reason of a choice, when it names one.
pub open spec fn finish_reason_of(choice: JsonView) -> Option<FinishReason> {
    match choice.at("finish_reason"@).as_str() {
        Some(s) => Some(finish_reason_named(s)),
        None => None,
    }
}

/// Whether the fields of a response or chunk are those of `data`, whose
/// first choice is `choice` and whose text fields stand in `body` (the
/// choice's `message` or `delta`).
pub open spec fn fields_read_from(
    id: Option<String>,
    content: Option<String>,
    reasoning: Option<String>,
    refusal: Option<String>,
    finish_reason: Option<FinishReason>,
    usage: Option<Usage>,
    data: JsonView,
    choice: JsonView,
    body: JsonView,
) -> bool {
    &&& opt_str_view(id) == data.at("id"@).as_str()
    &&& opt_str_view(content) == body.at("content"@).as_str()
    &&& opt_str_view(reasoning) == body.at("reasoning_content"@).as_str()
    &&& opt_str_view(refusal) == body.at("refusal"@).as_str()
    &&& finish_reason == finish_reason_of(choice)
    &&& usage == usage_of(data)
}

/// Whether `r` is what a `/chat/completions` response `data` reads as:
/// `NoChoices` when `choices` is not a non-empty array, then
/// `Serialization` when `usage` is present, not `null`, and not usage
/// statistics, else the fields of `data` and of its first choice's
/// `message`.
pub open spec fn reads_as_response(data: JsonView, r: Result<ChatResponse, Error>) -> bool {
    &&& ((r matches Err(Error::NoChoices)) <==> lacks_choice(data))
    &&& ((r matches Err(Error::Serialization(_))) <==> !lacks_choice(data) && usage_unreadable(data))
    &&& (r is Ok <==> !lacks_choice(data) && !usage_unreadable(data))
    &&& r matches Ok(resp) ==> {
        let choice = choices_of(data)->0[0];
        fields_read_from(
            resp.id,
            resp.content,
            resp.reasoning,
            resp.refusal,
            resp.finish_reason,
            resp.usage,
            data,
            choice,
            choice.at("message"@),
        )
    }
}

/// Whether `r` is what an SSE event's JSON `data` reads as: `NoChoices`
/// when `choices` is not an array, then `Serialization` when `usage` is
/// present, not `null`, and not usage statistics; an empty choices array
/// gives the usage-only chunk when `usage` is present and not `null`, and
/// `NoChoices` otherwise; else the fields of `data` and of its first
/// choice's `delta`.
pub open spec fn reads_as_chunk(data: JsonView, r: Result<StreamChunk, Error>) -> bool {
    &&& ((r matches Err(Error::NoChoices)) <==> lacks_choice(data) && (choices_of(data) is None
        || reported_usage(data) is None))
    &&& ((r matches Err(Error::Serialization(_))) <==> choices_of(data) is Some && usage_unreadable(
        data,
    ))
    &&& (r is Ok <==> choices_of(data) is Some && !usage_unreadable(data) && (!lacks_choice(data)
        || reported_usage(data) is Some))
    &&& r matches Ok(c) ==> (if lacks_choice(data) {
        &&& c.id is None
        &&& c.content is None
        &&& c.reasoning is None
        &&& c.refusal is None
        &&& c.finish_reason is None
        &&& c.usage is Some
        &&& c.usage == usage_of(data)
    } else {
        let choice = choices_of(data)->0[0];
        fields_read_from(
            c.id,
            c.content,
            c.reasoning,
            c.refusal,
            c.finish_reason,
            c.usage,
            data,
            choice,
            choice.at("delta"@),
        )
    })
}

fn str_in(v: Option<&Json>, key: &str) -> (r: Option<String>)
    ensures
        opt_str_view(r) == (match v {
            Some(j) => j@,
            None => JsonView::Null,
        }).at(key@).as_str(),
{
    match v {
        Some(j) => j.str_at(key),
        None => None,
    }
}

fn read_finish_reason(choice: &Json) -> (r: Option<FinishReason>)
    ensures
        r == finish_reason_of(choice@),
{
    match choice.get("finish_reason") {
        Some(v) => match v.as_str() {
            Some(s) => Some(FinishReason::from_name(s)),
            None => None,
        },
        None => None,
    }
}

/// Reads the `usage` field of a response: `Ok(None)` when there is none or
/// it is `null`, an error when it is not usage statistics.
fn read_usage_of(data: &Json) -> (r: Result<Option<Usage>, Error>)
    ensures
        match r {
            Ok(u) => !usage_unreadable(data@) && u == usage_of(data@),
            Err(e) => usage_unreadable(data@) && e is Serialization,
        },
{
    match data.get("usage") {
        Some(Json::Null) => Ok(None),
        Some(u) => match read_usage(u) {
            Ok(x) => Ok(Some(x)),
            Err(msg) => Err(Error::Serialization(json_decode_error(msg))),
        },
        None => Ok(None),
    }
}

fn read_choices(data: &Json) -> (r: Option<&Vec<Json>>)
    ensures
        match r {
            Some(cs) => choices_of(data@) == Some(json_view(Json::Array(*cs))->Array_0),
            None => choices_of(data@) is None,
        },
{
    match data.get("choices") {
        Some(v) => v.as_array(),
        None => None,
    }
}

impl ChatResponse {
    /// Reads a [`ChatResponse`] from the JSON of an OpenAI
    /// `/chat/completions` response.
    ///
    /// Fails with `NoChoices` when `choices` is not a non-empty array, then
    /// with `Serialization` when `usage` is present, not `null`, and not
    /// usage statistics. Otherwise the text fields are read from the first choice's
    /// `message`, where a field that is not a string reads as `None`.
    pub fn from_oai_chat_completion(data: Json) -> (r: Result<ChatResponse, Error>)
        ensures
            reads_as_response(data@, r),
    {
        let choices = match read_choices(&data) {
            Some(cs) => cs,
            None => return Err(Error::NoChoices),
        };
        if choices.len() == 0 {
            return Err(Error::NoChoices);
        }
        let choice = &choices[0];
        let finish_reason = read_finish_reason(choice);
        let usage = match read_usage_of(&data) {
            Ok(u) => u,
            Err(e) => return Err(e),
        };
        let message = choice.get("message");
        Ok(ChatResponse {
            id: data.str_at("id"),
            content: str_in(message, "content"),
            reasoning: str_in(message, "reasoning_content"),
            refusal: str_in(message, "refusal"),
            finish_reason,
            usage,
        })
    }

    /// The response's content, which structured output is parsed from;
    /// `NoContent` when there is none.
    pub fn require_content(&self) -> (r: Result<String, Error>)
        ensures
            match r {
                Ok(s) => opt_str_view(self.content) == Some(s@),
                Err(e) => self.content is None && e is NoContent,
            },
    {
        match &self.content {
            Some(s) => Ok(s.clone()),
            None => Err(Error::NoContent),
        }
    }
}

/// A single SSE delta from a streaming chat completion.
///
/// The API emits a penultimate event holding only token usage and no
/// content: it reads as a chunk whose fields are all `None` but `usage`.
#[derive(Debug, Clone)]
pub struct StreamChunk {
    /// Request-level ID (may only appear on the first chunk).
    pub id: Option<String>,
    /// Content delta for this chunk.
    pub content: Option<String>,
    /// Reasoning / chain-of-thought delta (provider-specific).
    pub reasoning: Option<String>,
    /// Refusal delta.
    pub refusal: Option<String>,
    /// Finish reason (typically only set on the final chunk).
    pub finish_reason: Option<FinishReason>,
    /// Token usage (typically only set on the final chunk).
    pub usage: Option<Usage>,
}

impl StreamChunk {
    /// Reads a [`StreamChunk`] from the JSON of an SSE `data:` line.
    ///
    /// Fails with `NoChoices` when `choices` is not an array, then with
    /// `Serialization` when `usage` is present, not `null`, and not usage
    /// statistics. An empty choices array gives the usage-only chunk when
    /// `usage` is present and not `null`, and `NoChoices` otherwise. Else the
    /// text fields are read from the first choice's `delta`.
    pub fn from_oai_chat_chunk(data: Json) -> (r: Result<StreamChunk, Error>)
        ensures
            reads_as_chunk(data@, r),
    {
        let choices = match read_choices(&data) {
            Some(cs) => cs,
            None => return Err(Error::NoChoices),
        };
        let usage = match read_usage_of(&data) {
            Ok(u) => u,
            Err(e) => return Err(e),
        };
        if choices.len() == 0 {
            return match usage {
                Some(u) => Ok(
                    StreamChunk {
                        id: None,
                        content: None,
                        reasoning: None,
                        refusal: None,
                        finish_reason: None,
                        usage: Some(u),
                    },
                ),
                None => Err(Error::NoChoices),
            };
        }
        let choice = &choices[0];
        let finish_reason = read_finish_reason(choice);
        let delta = choice.get("delta");
        Ok(StreamChunk {
            id: data.str_at("id"),
            content: str_in(delta, "content"),
            reasoning: str_in(delta, "reasoning_content"),
            refusal: str_in(delta, "refusal"),
            finish_reason,
            usage,
        })
    }
}

/// The result of a structured-output (JSON Schema) request: the
/// deserialized value and the [`ChatResponse`] it came with.
#[derive(Debug, Clone)]
pub struct ParsedResponse<T> {
    /// The parsed structured output.
    pub parsed: T,
    /// The full raw response (includes usage, finish reason, etc.).
    pub raw: ChatResponse,
}

} // verus!
