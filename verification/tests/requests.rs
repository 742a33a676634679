use oai_rs::client::llm_client::LLMClient as PlainClient;
use oai_rs::json::{Json, JsonNumber};
use oai_rs::message::{ContentPart, Message, Role};
use oai_rs::{ChatConfig, Error, LLMClient};
use serde_json::Value;

fn to_value(j: &Json) -> Value {
    match j {
        Json::Null => Value::Null,
        Json::Bool(b) => Value::Bool(*b),
        Json::Number(JsonNumber::PosInt(n)) => Value::from(*n),
        Json::Number(JsonNumber::NegInt(n)) => Value::from(*n),
        Json::Number(JsonNumber::Float(bits)) => Value::from(f64::from_bits(*bits)),
        Json::String(s) => Value::String(s.clone()),
        Json::Array(items) => Value::Array(items.iter().map(to_value).collect()),
        Json::Object(entries) => {
            let mut m = serde_json::Map::new();
            for (k, v) in entries {
                m.insert(k.clone(), to_value(v));
            }
            Value::Object(m)
        }
    }
}

fn value(text: &str) -> Value {
    serde_json::from_str(text).unwrap()
}

fn hello() -> Vec<Message> {
    vec![Message { role: Role::User, parts: vec![ContentPart::Text { text: "Hello!".to_string() }] }]
}

fn client(config: ChatConfig) -> LLMClient {
    LLMClient::new(
        "gpt-4o".to_string(),
        "http://localhost:8080/v1/".to_string(),
        "sk-test".to_string(),
        config,
    )
}

#[test]
fn default_config() {
    let c = ChatConfig::default();
    assert!(c.max_tokens.is_none() && c.temperature.is_none() && c.top_p.is_none());
    assert!(c.n.is_none() && c.seed.is_none() && c.response_format.is_none());
    assert_eq!(to_value(&c.extra), value("{}"));
}

#[test]
fn plain_body() {
    let body = client(ChatConfig::default()).get_body(&hello(), false).unwrap();
    assert_eq!(
        to_value(&body),
        value(
            r#"{"model":"gpt-4o","messages":[{"role":"user","content":[{"type":"text","text":"Hello!"}]}],
                "stream":false,"stream_options":{"include_usage":true},
                "max_tokens":null,"temperature":null,"top_p":null,"n":null,"seed":null}"#
        )
    );
}

#[test]
fn body_with_parameters_and_extra() {
    let mut config = ChatConfig::default();
    config.max_tokens = Some(128);
    config.temperature = Some(0.5f64.to_bits());
    config.top_p = Some(f64::NAN.to_bits());
    config.seed = Some(42);
    config.extra = Json::Object(vec![
        ("top_k".to_string(), Json::Number(JsonNumber::PosInt(40))),
        ("stream".to_string(), Json::Bool(true)),
    ]);
    let body = client(config).get_body(&hello(), false).unwrap();
    let v = to_value(&body);
    assert_eq!(v["max_tokens"], value("128"));
    assert_eq!(v["temperature"], value("0.5"));
    assert_eq!(v["top_p"], Value::Null);
    assert_eq!(v["seed"], value("42"));
    assert_eq!(v["n"], Value::Null);
    assert_eq!(v["top_k"], value("40"));
    // a parameter of extra is written last and has the last word
    assert_eq!(v["stream"], Value::Bool(true));
    assert!(v.get("extra").is_none());
}

#[test]
fn extra_that_is_not_an_object() {
    let mut config = ChatConfig::default();
    config.extra = Json::Null;
    let v = to_value(&client(config).get_body(&hello(), true).unwrap());
    assert_eq!(v["extra"], Value::Null);
    assert!(v.as_object().unwrap().contains_key("extra"));
    let mut config = ChatConfig::default();
    config.extra = Json::Bool(true);
    let v = to_value(&client(config).get_body(&hello(), true).unwrap());
    assert_eq!(v["extra"], Value::Bool(true));
    assert_eq!(v["model"], value(r#""gpt-4o""#));
}

#[test]
fn streaming_body() {
    let body = client(ChatConfig::default()).get_body(&hello(), true).unwrap();
    assert_eq!(to_value(&body)["stream"], Value::Bool(true));
}

#[test]
fn schema_body() {
    let schema = Json::Object(vec![("type".to_string(), Json::String("object".to_string()))]);
    let body = client(ChatConfig::default())
        .get_body_with_response_schema(&hello(), false, "my_app::types::Joke", schema)
        .unwrap();
    assert_eq!(
        to_value(&body)["response_format"],
        value(r#"{"type":"json_schema","json_schema":{"name":"Joke","schema":{"type":"object"},"strict":true}}"#)
    );
}

#[test]
fn configured_format_wins_over_schema() {
    let mut config = ChatConfig::default();
    config.response_format = Some(Json::Object(vec![(
        "type".to_string(),
        Json::String("json_object".to_string()),
    )]));
    let body = client(config)
        .get_body_with_response_schema(&hello(), false, "Joke", Json::Null)
        .unwrap();
    assert_eq!(to_value(&body)["response_format"], value(r#"{"type":"json_object"}"#));
}

#[test]
fn endpoint() {
    assert_eq!(client(ChatConfig::default()).get_chat_endpoint(), "http://localhost:8080/v1/chat/completions");
    let c = LLMClient::new("m".into(), "https://api.openai.com/v1".into(), "k".into(), ChatConfig::default());
    assert_eq!(c.get_chat_endpoint(), "https://api.openai.com/v1/chat/completions");
    let c = LLMClient::new("m".into(), "http://h///".into(), "k".into(), ChatConfig::default());
    assert_eq!(c.get_chat_endpoint(), "http://h/chat/completions");
    let c = LLMClient::new("m".into(), "".into(), "k".into(), ChatConfig::default());
    assert_eq!(c.get_chat_endpoint(), "/chat/completions");
}

#[test]
fn authorization_header() {
    let headers = client(ChatConfig::default()).get_headers().unwrap();
    assert_eq!(headers.len(), 1);
    assert_eq!(headers.get("authorization").unwrap().as_bytes(), b"Bearer sk-test");
    let tab = LLMClient::new("m".into(), "u".into(), "a\tb".into(), ChatConfig::default());
    assert!(tab.get_headers().is_ok());
    let bad = LLMClient::new("m".into(), "u".into(), "sk\nx".into(), ChatConfig::default());
    assert!(matches!(bad.get_headers(), Err(Error::InvalidHeader(_))));
    let del = LLMClient::new("m".into(), "u".into(), "sk\u{7f}".into(), ChatConfig::default());
    assert!(matches!(del.get_headers(), Err(Error::InvalidHeader(_))));
}

#[test]
fn plain_client_bodies() {
    let c = PlainClient::new("m".into(), "http://h/".into(), "k".into(), ChatConfig::default());
    let body = c.get_body(&hello()).unwrap();
    let v = to_value(&body);
    assert!(v.get("stream").is_none());
    assert!(v.get("stream_options").is_none());
    assert_eq!(v["model"], value(r#""m""#));
    assert_eq!(c.get_chat_endpoint(), "http://h/chat/completions");
    assert_eq!(c.get_headers().unwrap().get("authorization").unwrap().as_bytes(), b"Bearer k");

    let mut config = ChatConfig::default();
    config.extra = Json::Object(vec![("stream".to_string(), Json::Bool(false))]);
    let c2 = PlainClient::new("m".into(), "http://h".into(), "k".into(), config);
    assert_eq!(to_value(&c2.get_stream_body(&hello()).unwrap())["stream"], Value::Bool(true));
    assert!(to_value(&c2.get_body(&hello()).unwrap())["stream"] == Value::Bool(false));

    let mut config = ChatConfig::default();
    config.response_format = Some(Json::String("ignored".to_string()));
    let c = PlainClient::new("m".into(), "http://h".into(), "k".into(), config);
    let body = c
        .get_structured_body(&hello(), "a::b::Answer", Json::Bool(true))
        .unwrap();
    assert_eq!(
        to_value(&body)["response_format"],
        value(r#"{"type":"json_schema","json_schema":{"name":"Answer","schema":true,"strict":true}}"#)
    );
}

#[test]
fn object_write_then_read() {
    let mut obj = Json::Object(vec![]);
    obj.insert("a".to_string(), Json::Bool(true));
    obj.insert("b".to_string(), Json::Null);
    obj.insert("a".to_string(), Json::Bool(false));
    assert!(matches!(obj.get("a"), Some(Json::Bool(false))));
    assert!(matches!(obj.get("b"), Some(Json::Null)));
    assert!(obj.get("c").is_none());
    match &obj {
        Json::Object(entries) => assert_eq!(entries.len(), 2),
        _ => panic!("not an object"),
    }
}

#[test]
fn schema_body_is_plain_body_with_format() {
    let c = client(ChatConfig::default());
    let plain = to_value(&c.get_body(&hello(), true).unwrap());
    let schema = Json::Object(vec![("type".to_string(), Json::String("object".to_string()))]);
    let mut structured = to_value(&c.get_body_with_response_schema(&hello(), true, "x::Y", schema).unwrap());
    assert!(plain.get("response_format").is_none());
    assert!(structured.get("response_format").is_some());
    structured.as_object_mut().unwrap().remove("response_format");
    assert_eq!(structured, plain);
}
