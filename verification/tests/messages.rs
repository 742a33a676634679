use oai_rs::json::{Json, JsonNumber};
use oai_rs::{ContentPart, ImageFormat, Message, Role};
use serde_json::Value;

fn to_value(j: &Json) -> Value {
    match j {
        Json::Null => Value::Null,
        Json::Bool(b) => Value::Bool(*b),
        Json::Number(JsonNumber::PosInt(n)) => Value::from(*n),
        Json::Number(JsonNumber::NegInt(n)) => Value::from(*n),
        Json::Number(JsonNumber::Float(bits)) => Value::from(f64::from_bits(*bits)),
        Json::String(s) => Value::String(s.clone()),
        Json::Array(items) => Value::Array(items.iter().map(to_value).collect()),
        Json::Object(entries) => {
            let mut m = serde_json::Map::new();
            for (k, v) in entries {
                m.insert(k.clone(), to_value(v));
            }
            Value::Object(m)
        }
    }
}

fn value(text: &str) -> Value {
    serde_json::from_str(text).unwrap()
}

#[test]
fn role_names() {
    assert_eq!(Role::System.to_string(), "system");
    assert_eq!(Role::User.to_string(), "user");
    assert_eq!(Role::Assistant.to_string(), "assistant");
}

#[test]
fn image_format_names_and_default() {
    assert_eq!(ImageFormat::Png.to_string(), "png");
    assert_eq!(ImageFormat::Jpeg.to_string(), "jpeg");
    assert_eq!(ImageFormat::Jpg.to_string(), "jpg");
    assert_eq!(ImageFormat::Webp.to_string(), "webp");
    assert_eq!(ImageFormat::default(), ImageFormat::Png);
}

#[test]
fn text_part_json() {
    let part = ContentPart::Text { text: "Hello".to_string() };
    assert_eq!(to_value(&part.to_oai_json()), value(r#"{"type":"text","text":"Hello"}"#));
}

#[test]
fn image_part_json() {
    let part = ContentPart::Image { data: "QUJD".to_string(), format: ImageFormat::Webp };
    assert_eq!(
        to_value(&part.to_oai_json()),
        value(r#"{"type":"image_url","image_url":{"url":"data:image/webp;base64,QUJD"}}"#)
    );
}

#[test]
fn message_json() {
    let m = Message {
        role: Role::User,
        parts: vec![
            ContentPart::Text { text: "Hello!".to_string() },
            ContentPart::Image { data: "xyz".to_string(), format: ImageFormat::Png },
        ],
    };
    assert_eq!(
        to_value(&m.to_oai_json()),
        value(
            r#"{"role":"user","content":[{"type":"text","text":"Hello!"},
               {"type":"image_url","image_url":{"url":"data:image/png;base64,xyz"}}]}"#
        )
    );
}

#[test]
fn message_without_parts_json() {
    let m = Message { role: Role::System, parts: vec![] };
    assert_eq!(to_value(&m.to_oai_json()), value(r#"{"role":"system","content":[]}"#));
}

#[test]
fn debug_hides_image_data() {
    let img = ContentPart::Image { data: "secret".to_string(), format: ImageFormat::Jpeg };
    assert_eq!(img.debug_string(), "Image { data: \"...\", format: Jpeg }");
    let text = ContentPart::Text { text: "say \"hi\"\n".to_string() };
    assert_eq!(text.debug_string(), "Text { text: \"say \\\"hi\\\"\\n\" }");
}
