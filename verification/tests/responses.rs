use oai_rs::completion::response::{ChatResponse, FinishReason, StreamChunk, Usage};
use oai_rs::json::{Json, JsonNumber};
use oai_rs::Error;
use serde_json::Value;

fn from_value(v: &Value) -> Json {
    match v {
        Value::Null => Json::Null,
        Value::Bool(b) => Json::Bool(*b),
        Value::Number(n) => {
            if let Some(u) = n.as_u64() {
                Json::Number(JsonNumber::PosInt(u))
            } else if let Some(i) = n.as_i64() {
                Json::Number(JsonNumber::NegInt(i))
            } else {
                Json::Number(JsonNumber::Float(n.as_f64().unwrap().to_bits()))
            }
        }
        Value::String(s) => Json::String(s.clone()),
        Value::Array(items) => Json::Array(items.iter().map(from_value).collect()),
        Value::Object(m) => Json::Object(m.iter().map(|(k, v)| (k.clone(), from_value(v))).collect()),
    }
}

fn parse(text: &str) -> Json {
    from_value(&serde_json::from_str::<Value>(text).unwrap())
}

fn completion(text: &str) -> Result<ChatResponse, Error> {
    ChatResponse::from_oai_chat_completion(parse(text))
}

fn chunk(text: &str) -> Result<StreamChunk, Error> {
    StreamChunk::from_oai_chat_chunk(parse(text))
}

#[test]
fn completion_reads_fields() {
    let r = completion(
        r#"{"id":"cmpl-1","choices":[{"finish_reason":"stop","message":
            {"content":"Hi there","reasoning_content":"thinking","refusal":null}}],
            "usage":{"prompt_tokens":5,"completion_tokens":7,"total_tokens":12}}"#,
    )
    .unwrap();
    assert_eq!(r.id.as_deref(), Some("cmpl-1"));
    assert_eq!(r.content.as_deref(), Some("Hi there"));
    assert_eq!(r.reasoning.as_deref(), Some("thinking"));
    assert_eq!(r.refusal, None);
    assert_eq!(r.finish_reason, Some(FinishReason::Stop));
    assert_eq!(r.usage, Some(Usage { prompt_tokens: 5, completion_tokens: 7, total_tokens: 12 }));
}

#[test]
fn completion_without_choices() {
    assert!(matches!(completion(r#"{"id":"x"}"#), Err(Error::NoChoices)));
    assert!(matches!(completion(r#"{"choices":[]}"#), Err(Error::NoChoices)));
    assert!(matches!(completion(r#"{"choices":{"a":1}}"#), Err(Error::NoChoices)));
    assert!(matches!(completion(r#"[1,2]"#), Err(Error::NoChoices)));
    // choices are checked before usage
    assert!(matches!(completion(r#"{"choices":[],"usage":null}"#), Err(Error::NoChoices)));
}

#[test]
fn completion_with_unreadable_usage() {
    assert!(matches!(
        completion(r#"{"choices":[{}],"usage":{"prompt_tokens":-1}}"#),
        Err(Error::Serialization(_))
    ));
    assert!(matches!(
        completion(r#"{"choices":[{}],"usage":{"total_tokens":4294967296}}"#),
        Err(Error::Serialization(_))
    ));
    assert!(matches!(
        completion(r#"{"choices":[{}],"usage":{"total_tokens":1.5}}"#),
        Err(Error::Serialization(_))
    ));
    assert!(matches!(completion(r#"{"choices":[{}],"usage":[1,2,3,4]}"#), Err(Error::Serialization(_))));
    assert!(matches!(completion(r#"{"choices":[{}],"usage":"many"}"#), Err(Error::Serialization(_))));
}

#[test]
fn usage_defaults_and_forms() {
    let r = completion(r#"{"choices":[{}],"usage":{"total_tokens":3,"other":"x"}}"#).unwrap();
    assert_eq!(r.usage, Some(Usage { prompt_tokens: 0, completion_tokens: 0, total_tokens: 3 }));
    let r = completion(r#"{"choices":[{}],"usage":[1,2]}"#).unwrap();
    assert_eq!(r.usage, Some(Usage { prompt_tokens: 1, completion_tokens: 2, total_tokens: 0 }));
    let r = completion(r#"{"choices":[{}],"usage":{"prompt_tokens":4294967295}}"#).unwrap();
    assert_eq!(r.usage.unwrap().prompt_tokens, u32::MAX);
    let r = completion(r#"{"choices":[{}]}"#).unwrap();
    assert_eq!(r.usage, None);
    let r = completion(r#"{"choices":[{}],"usage":null}"#).unwrap();
    assert_eq!(r.usage, None);
}

#[test]
fn completion_fields_that_are_not_strings() {
    let r = completion(r#"{"id":7,"choices":[{"finish_reason":3,"message":{"content":["a"]}}]}"#)
        .unwrap();
    assert_eq!(r.id, None);
    assert_eq!(r.content, None);
    assert_eq!(r.finish_reason, None);
    let r = completion(r#"{"choices":[{"message":"text"}]}"#).unwrap();
    assert_eq!(r.content, None);
}

#[test]
fn finish_reasons() {
    assert_eq!(FinishReason::from_name("stop"), FinishReason::Stop);
    assert_eq!(FinishReason::from_name("length"), FinishReason::Length);
    assert_eq!(FinishReason::from_name("tool_calls"), FinishReason::ToolCalls);
    assert_eq!(FinishReason::from_name("content_filter"), FinishReason::ContentFilter);
    assert_eq!(FinishReason::from_name("function_call"), FinishReason::Unknown);
    assert_eq!(FinishReason::from_name("Stop"), FinishReason::Unknown);
    let r = completion(r#"{"choices":[{"finish_reason":"length","message":{}}]}"#).unwrap();
    assert_eq!(r.finish_reason, Some(FinishReason::Length));
}

#[test]
fn first_choice_is_read() {
    let r = completion(
        r#"{"choices":[{"message":{"content":"one"}},{"message":{"content":"two"}}]}"#,
    )
    .unwrap();
    assert_eq!(r.content.as_deref(), Some("one"));
}

#[test]
fn content_is_required_for_structured_output() {
    let r = completion(r#"{"choices":[{"message":{"content":"{\"a\":1}"}}]}"#).unwrap();
    assert_eq!(r.require_content().unwrap(), "{\"a\":1}");
    let r = completion(r#"{"choices":[{"message":{"refusal":"no"}}]}"#).unwrap();
    assert!(matches!(r.require_content(), Err(Error::NoContent)));
}

#[test]
fn chunk_reads_delta() {
    let c = chunk(
        r#"{"id":"c1","choices":[{"delta":{"content":"He","reasoning_content":"hm"},
            "finish_reason":null}]}"#,
    )
    .unwrap();
    assert_eq!(c.id.as_deref(), Some("c1"));
    assert_eq!(c.content.as_deref(), Some("He"));
    assert_eq!(c.reasoning.as_deref(), Some("hm"));
    assert_eq!(c.finish_reason, None);
    assert_eq!(c.usage, None);
}

#[test]
fn usage_only_chunk() {
    let c = chunk(r#"{"id":"c1","choices":[],"usage":{"prompt_tokens":1,"completion_tokens":2,"total_tokens":3}}"#)
        .unwrap();
    assert_eq!(c.id, None);
    assert_eq!(c.content, None);
    assert_eq!(c.reasoning, None);
    assert_eq!(c.refusal, None);
    assert_eq!(c.finish_reason, None);
    assert_eq!(c.usage, Some(Usage { prompt_tokens: 1, completion_tokens: 2, total_tokens: 3 }));
}

#[test]
fn chunk_errors() {
    assert!(matches!(chunk(r#"{"choices":[]}"#), Err(Error::NoChoices)));
    assert!(matches!(chunk(r#"{"usage":{"total_tokens":1}}"#), Err(Error::NoChoices)));
    assert!(matches!(chunk(r#"{"choices":[],"usage":null}"#), Err(Error::NoChoices)));
    assert!(matches!(chunk(r#"{"choices":[],"usage":false}"#), Err(Error::Serialization(_))));
    assert!(matches!(
        chunk(r#"{"choices":[{"delta":{"content":"x"}}],"usage":"all"}"#),
        Err(Error::Serialization(_))
    ));
}

#[test]
fn chunk_with_finish_and_usage() {
    let c = chunk(
        r#"{"choices":[{"delta":{},"finish_reason":"content_filter"}],"usage":{"total_tokens":9}}"#,
    )
    .unwrap();
    assert_eq!(c.finish_reason, Some(FinishReason::ContentFilter));
    assert_eq!(c.usage, Some(Usage { prompt_tokens: 0, completion_tokens: 0, total_tokens: 9 }));
    assert_eq!(c.content, None);
}

#[test]
fn object_keys_last_entry_counts() {
    let data = Json::Object(vec![
        (
            "choices".to_string(),
            Json::Array(vec![Json::Object(vec![(
                "message".to_string(),
                Json::Object(vec![
                    ("content".to_string(), Json::String("first".to_string())),
                    ("content".to_string(), Json::String("second".to_string())),
                ]),
            )])]),
        ),
        ("id".to_string(), Json::Null),
    ]);
    let r = ChatResponse::from_oai_chat_completion(data).unwrap();
    assert_eq!(r.content.as_deref(), Some("second"));
    assert_eq!(r.id, None);
}

#[test]
fn chunk_with_null_usage() {
    let c = chunk(r#"{"choices":[{"delta":{"content":"Hi"},"finish_reason":null}],"usage":null}"#)
        .unwrap();
    assert_eq!(c.id, None);
    assert_eq!(c.content.as_deref(), Some("Hi"));
    assert_eq!(c.reasoning, None);
    assert_eq!(c.refusal, None);
    assert_eq!(c.finish_reason, None);
    assert_eq!(c.usage, None);
}
