//! The parts a message's content is made of.

use vstd::prelude::*;
use crate::json::{Json, JsonView, json_str, json_string};
use crate::text::{debug_escaped, debug_str};

verus! {

/// The encoding of an image part.
#[derive(Debug, Clone, Copy, PartialEq, Eq, Structural)]
pub enum ImageFormat {
    Png,
    Jpeg,
    Jpg,
    Webp,
}

/// The lower-case name of an image format, as it stands in a data URL.
pub open spec fn format_name(f: ImageFormat) -> Seq<char> {
    match f {
        ImageFormat::Png => "png"@,
        ImageFormat::Jpeg => "jpeg"@,
        ImageFormat::Jpg => "jpg"@,
        ImageFormat::Webp => "webp"@,
    }
}

/// The name of a format's variant, as `{:?}` writes it.
pub open spec fn format_variant_name(f: ImageFormat) -> Seq<char> {
    match f {
        ImageFormat::Png => "Png"@,
        ImageFormat::Jpeg => "Jpeg"@,
        ImageFormat::Jpg => "Jpg"@,
        ImageFormat::Webp => "Webp"@,
    }
}

impl Default for ImageFormat {
    fn default() -> (r: Self)
        ensures
            r == ImageFormat::Png,
    {
        ImageFormat::Png
    }
}

impl ImageFormat {
    /// The format's lower-case name: "png", "jpeg", "jpg" or "webp".
    pub fn to_string(&self) -> (s: String)
        ensures
            s@ == format_name(*self),
    {
        match self {
            ImageFormat::Png => String::from_str("png"),
            ImageFormat::Jpeg => String::from_str("jpeg"),
            ImageFormat::Jpg => String::from_str("jpg"),
            ImageFormat::Webp => String::from_str("webp"),
        }
    }

    fn variant_name(&self) -> (s: String)
        ensures
            s@ == format_variant_name(*self),
    {
        match self {
            ImageFormat::Png => String::from_str("Png"),
            ImageFormat::Jpeg => String::from_str("Jpeg"),
            ImageFormat::Jpg => String::from_str("Jpg"),
            ImageFormat::Webp => String::from_str("Webp"),
        }
    }
}

/// A content segment within a chat message.
///
/// A message may consist of several parts, so that text and images can be
/// combined in one message.
#[derive(Clone)]
pub enum ContentPart {
    /// Plain text content.
    Text {
        /// The text content.
        text: String,
    },
    /// Image content encoded as a Base64 string, sent as a
    /// `data:image/<format>;base64,<data>` URL.
    Image {
        /// Base64-encoded image data.
        data: String,
        /// The image format.
        format: ImageFormat,
    },
}

/// The data URL under which an image is sent.
pub open spec fn image_data_url(data: Seq<char>, format: ImageFormat) -> Seq<char> {
    "data:image/"@ + format_name(format) + ";base64,"@ + data
}

/// The OpenAI JSON form of a content part.
pub open spec fn content_part_json(p: ContentPart) -> JsonView {
    match p {
        ContentPart::Text { text } => JsonView::Object(
            seq![("type"@, JsonView::Str("text"@)), ("text"@, JsonView::Str(text@))],
        ),
        ContentPart::Image { data, format } => JsonView::Object(
            seq![
                ("type"@, JsonView::Str("image_url"@)),
                (
                    "image_url"@,
                    JsonView::Object(
                        seq![("url"@, JsonView::Str(image_data_url(data@, format)))],
                    ),
                ),
            ],
        ),
    }
}

/// The debug form of a content part, in which an image's data is hidden.
pub open spec fn content_part_debug(p: ContentPart) -> Seq<char> {
    match p {
        ContentPart::Text { text } => "Text { text: "@ + debug_escaped(text@) + " }"@,
        ContentPart::Image { format, .. } => "Image { data: \"...\", format: "@
            + format_variant_name(format) + " }"@,
    }
}

impl ContentPart {
    /// Converts this content part into the JSON format of OpenAI-compatible
    /// chat completion APIs: `{"type": "text", "text": ..}` for text and
    /// `{"type": "image_url", "image_url": {"url": "data:image/<format>;base64,<data>"}}`
    /// for an image.
    pub fn to_oai_json(&self) -> (r: Json)
        ensures
            r@ == content_part_json(*self),
    {
        let mut entries: Vec<(String, Json)> = Vec::new();
        match self {
            ContentPart::Text { text } => {
                entries.push((String::from_str("type"), json_str("text")));
                entries.push((String::from_str("text"), json_str(text.as_str())));
                let r = Json::Object(entries);
                assert(r@->Object_0 =~= content_part_json(*self)->Object_0);
                r
            },
            ContentPart::Image { data, format } => {
                let url = String::from_str("data:image/").concat(format.to_string().as_str()).concat(
                    ";base64,",
                ).concat(data.as_str());
                let mut inner: Vec<(String, Json)> = Vec::new();
                inner.push((String::from_str("url"), json_string(url)));
                let inner = Json::Object(inner);
                assert(inner@->Object_0 =~= seq![("url"@, JsonView::Str(image_data_url(data@, *format)))]);
                entries.push((String::from_str("type"), json_str("image_url")));
                entries.push((String::from_str("image_url"), inner));
                let r = Json::Object(entries);
                assert(r@->Object_0 =~= content_part_json(*self)->Object_0);
                r
            },
        }
    }

    /// The part as `{:?}` shows it, with an image's data replaced by "...".
    pub fn debug_string(&self) -> (s: String)
        ensures
            s@ == content_part_debug(*self),
    {
        match self {
            ContentPart::Text { text } => String::from_str("Text { text: ").concat(
                debug_str(text.as_str()).as_str(),
            ).concat(" }"),
            ContentPart::Image { format, .. } => String::from_str(
                "Image { data: \"...\", format: ",
            ).concat(format.variant_name().as_str()).concat(" }"),
        }
    }
}

} // verus!
