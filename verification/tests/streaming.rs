use oai_rs::client::chat::{
    AssistantMessage, ChatChunk, ChatResponse, Choice, ChunkChoice, Delta, is_false,
};
use oai_rs::client::llm_client::{LineBuffer, SseLine, sse_line};
use oai_rs::completion::client::{StreamAction, on_stream_data, on_stream_event};
use oai_rs::text::{last_path_segment_of, str_eq, strip_prefix, trim_end_char};
use oai_rs::Error;

fn reply(content: Option<&str>, refusal: Option<&str>) -> ChatResponse {
    ChatResponse {
        choices: vec![Choice {
            message: AssistantMessage {
                content: content.map(String::from),
                refusal: refusal.map(String::from),
            },
        }],
    }
}

#[test]
fn stream_events() {
    assert!(matches!(on_stream_event(Ok("[DONE]".to_string())), StreamAction::Stop));
    match on_stream_event(Ok(r#"{"choices":[{"delta":{"content":"Hi"}}],"usage":null}"#.to_string())) {
        StreamAction::Send(Ok(c)) => {
            assert_eq!(c.content.as_deref(), Some("Hi"));
            assert_eq!(c.usage, None);
        }
        _ => panic!("expected a chunk to be sent"),
    }
    match on_stream_event(Err("connection reset".to_string())) {
        StreamAction::SendErrorAndStop(Error::Api(m)) => assert_eq!(m, "connection reset"),
        _ => panic!("expected an Api error"),
    }
    assert!(matches!(
        on_stream_event(Ok(" [DONE]".to_string())),
        StreamAction::SendErrorAndStop(Error::Serialization(_))
    ));
}

#[test]
fn stream_data() {
    assert!(matches!(on_stream_data("{oops"), StreamAction::SendErrorAndStop(Error::Serialization(_))));
    assert!(matches!(on_stream_data("{}"), StreamAction::Send(Err(Error::NoChoices))));
    assert!(matches!(on_stream_data("[1, 2]"), StreamAction::Send(Err(Error::NoChoices))));
    match on_stream_data(r#"{"id":"x","choices":[{"delta":{"reasoning_content":"r"},"finish_reason":"stop"}],
        "usage":{"prompt_tokens":1,"completion_tokens":2.5}}"#) {
        StreamAction::Send(Err(Error::Serialization(_))) => {}
        _ => panic!("expected a Serialization error to be sent"),
    }
    match on_stream_data(r#"{"id":"x","choices":[{"delta":{"reasoning_content":"r"},"finish_reason":"stop"}]}"#) {
        StreamAction::Send(Ok(c)) => {
            assert_eq!(c.id.as_deref(), Some("x"));
            assert_eq!(c.reasoning.as_deref(), Some("r"));
            assert_eq!(c.content, None);
        }
        _ => panic!("expected a chunk"),
    }
}

#[test]
fn replies() {
    assert_eq!(reply(Some("hi"), None).chat_reply().unwrap(), "hi");
    match reply(Some("hi"), Some("I can't")).chat_reply() {
        Err(Error::Api(m)) => assert_eq!(m, "I can't"),
        _ => panic!("expected the refusal"),
    }
    match reply(None, None).chat_reply() {
        Err(Error::Api(m)) => assert_eq!(m, "assistant message contained no content"),
        _ => panic!("expected an Api error"),
    }
    match reply(None, None).structured_reply() {
        Err(Error::Api(m)) => assert_eq!(m, "no content"),
        _ => panic!("expected an Api error"),
    }
    assert!(matches!(ChatResponse { choices: vec![] }.chat_reply(), Err(Error::NoChoices)));
}

#[test]
fn content_deltas() {
    let c = ChatChunk { choices: vec![ChunkChoice { delta: Delta { content: Some("tok".into()) } }] };
    assert_eq!(c.content_delta(), Some("tok"));
    let c = ChatChunk { choices: vec![ChunkChoice { delta: Delta { content: None } }] };
    assert_eq!(c.content_delta(), None);
    let c = ChatChunk { choices: vec![] };
    assert_eq!(c.content_delta(), None);
}

#[test]
fn false_flag() {
    assert!(is_false(&false));
    assert!(!is_false(&true));
}

#[test]
fn sse_lines() {
    match sse_line("data: {\"x\":1}") {
        SseLine::Data(d) => assert_eq!(d, "{\"x\":1}"),
        _ => panic!("expected data"),
    }
    assert!(matches!(sse_line("data: [DONE]"), SseLine::Done));
    assert!(matches!(sse_line("data:[DONE]"), SseLine::Skip));
    assert!(matches!(sse_line(": keep-alive"), SseLine::Skip));
    assert!(matches!(sse_line(""), SseLine::Skip));
    match sse_line("data: ") {
        SseLine::Data(d) => assert_eq!(d, ""),
        _ => panic!("expected empty data"),
    }
}

#[test]
fn line_buffer_across_chunks() {
    let mut buf = LineBuffer::new();
    buf.extend(b"data: one\r");
    assert_eq!(buf.next_line(), None);
    buf.extend(b"\ndata: tw");
    assert_eq!(buf.next_line().as_deref(), Some("data: one"));
    assert_eq!(buf.next_line(), None);
    buf.extend(b"o\n\nrest");
    assert_eq!(buf.next_line().as_deref(), Some("data: two"));
    assert_eq!(buf.next_line().as_deref(), Some(""));
    assert_eq!(buf.next_line(), None);
    buf.extend(b"\r\r\n");
    assert_eq!(buf.next_line().as_deref(), Some("rest"));
}

#[test]
fn line_buffer_replaces_invalid_utf8() {
    let mut buf = LineBuffer::new();
    buf.extend(&[b'a', 0xff, b'b', b'\n']);
    assert_eq!(buf.next_line().as_deref(), Some("a\u{fffd}b"));
    buf.extend("h\u{e9}\n".as_bytes());
    assert_eq!(buf.next_line().as_deref(), Some("h\u{e9}"));
}

#[test]
fn text_helpers() {
    assert_eq!(last_path_segment_of("my_crate::module::Joke"), "Joke");
    assert_eq!(last_path_segment_of("Joke"), "Joke");
    assert_eq!(last_path_segment_of("a:::b"), ":b");
    assert_eq!(last_path_segment_of("a::"), "");
    assert_eq!(last_path_segment_of("alloc::vec::Vec<my::T>"), "T>");
    assert_eq!(trim_end_char("x//", '/'), "x");
    assert_eq!(trim_end_char("///", '/'), "");
    assert!(str_eq("h\u{e9}", "h\u{e9}"));
    assert!(!str_eq("ab", "abc"));
    assert_eq!(strip_prefix("data: x", "data: "), Some("x"));
    assert_eq!(strip_prefix("dat", "data: "), None);
}

fn read_all(chunks: &[&[u8]]) -> Vec<String> {
    let mut buf = LineBuffer::new();
    let mut lines = Vec::new();
    for c in chunks {
        buf.extend(c);
        while let Some(l) = buf.next_line() {
            lines.push(l);
        }
    }
    lines
}

#[test]
fn chunk_boundaries_do_not_change_lines() {
    let bytes = "data: h\u{e9}llo\r\n\ndata: [DONE]\npartial".as_bytes();
    let whole = read_all(&[bytes]);
    assert_eq!(whole, vec!["data: h\u{e9}llo", "", "data: [DONE]"]);
    for cut in 0..bytes.len() {
        assert_eq!(read_all(&[&bytes[..cut], &bytes[cut..]]), whole);
    }
    let singles: Vec<&[u8]> = bytes.chunks(1).collect();
    assert_eq!(read_all(&singles), whole);
}
