//! Properties of the library that span its functions.

use vstd::prelude::*;
use vstd::utf8::{encode_utf8, is_ascii_chars, is_ascii_chars_encode_utf8};
use crate::completion::chat_config::{
    ChatConfig, config_entries, extra_entries, opt_f64_json, opt_u32_json, opt_u64_json,
};
use crate::completion::client::{body_spec, include_usage_options, schema_format};
use crate::client::llm_client::{complete_lines, first_newline, line_text, plain_body_spec};
use crate::headers::{is_header_value_byte, is_header_value_text};
use crate::json::{
    JsonView, entry_value, last_key_index, lemma_entry_value_concat, lemma_key_absent,
    lemma_last_key_index_at, lemma_object_of_get, lemma_with_entry_get,
};
use crate::text::trim_end_spec;
use crate::transport::{authorization_name, bearer_text, chat_endpoint_spec};
use crate::types::message::{Message, messages_json};
use crate::types::role::{Role, role_name};
use crate::types::content_part::{ContentPart, ImageFormat, content_part_json, format_name};
use crate::types::message::message_json;
use crate::types::error::Error;
use crate::json::JsonNumber;
use crate::completion::response::{
    ChatResponse, FinishReason, StreamChunk, decode_usage, finish_reason_named, reads_as_chunk,
    reads_as_response,
};
use crate::json::opt_str_view;

verus! {

/// Whether the configuration's `extra` sets the parameter `k`.
pub open spec fn extra_sets(config: ChatConfig, k: Seq<char>) -> bool {
    entry_value(extra_entries(config.extra@), k) is Some
}

/// A trailing slash of a base URL does not change its endpoint.
pub proof fn law_endpoint_ignores_trailing_slash(base_url: Seq<char>)
    ensures
        chat_endpoint_spec(base_url.push('/')) == chat_endpoint_spec(base_url),
{
    assert(base_url.push('/').drop_last() =~= base_url);
}

/// The endpoint is the base URL without its run of trailing slashes,
/// followed by "/chat/completions".
pub proof fn law_endpoint_shape(base_url: Seq<char>)
    ensures
        ({
            let p = trim_end_spec(base_url, '/');
            &&& chat_endpoint_spec(base_url) == p + "/chat/completions"@
            &&& p.len() <= base_url.len()
            &&& base_url.subrange(0, p.len() as int) == p
            &&& forall|i: int| p.len() <= i < base_url.len() ==> #[trigger] base_url[i] == '/'
            &&& p.len() == 0 || p.last() != '/'
        }),
    decreases base_url.len(),
{
    if base_url.len() > 0 && base_url.last() == '/' {
        let t = base_url.drop_last();
        law_endpoint_shape(t);
        let p = trim_end_spec(t, '/');
        assert(base_url.subrange(0, p.len() as int) =~= t.subrange(0, p.len() as int));
        assert forall|i: int| p.len() <= i < base_url.len() implies #[trigger] base_url[i] == '/' by {
            if i < t.len() {
                assert(base_url[i] == t[i]);
            }
        }
    } else {
        assert(base_url.subrange(0, base_url.len() as int) =~= base_url);
    }
}

/// For an API key of ASCII characters, the authorization header can be made
/// exactly when every character is printable, a space or a tab; its value
/// then holds the text's characters as bytes.
pub proof fn law_ascii_key_header(api_key: Seq<char>)
    requires
        is_ascii_chars(api_key),
    ensures
        is_header_value_text(bearer_text(api_key)) <==> forall|i: int|
            0 <= i < api_key.len() ==> (#[trigger] api_key[i] >= ' ' && api_key[i] != '\x7f')
                || api_key[i] == '\t',
        is_ascii_chars(bearer_text(api_key)),
        encode_utf8(bearer_text(api_key)).len() == bearer_text(api_key).len(),
{
    reveal_strlit("Bearer ");
    let t = bearer_text(api_key);
    assert forall|i: int| 0 <= i < t.len() implies '\0' <= #[trigger] t[i] <= '\u{7f}' by {
        if i >= 7 {
            assert(t[i] == api_key[i - 7]);
        }
    }
    is_ascii_chars_encode_utf8(t);
    let e = encode_utf8(t);
    if is_header_value_text(t) {
        assert forall|i: int| 0 <= i < api_key.len() implies (#[trigger] api_key[i] >= ' '
            && api_key[i] != '\x7f') || api_key[i] == '\t' by {
            assert(t[i + 7] == api_key[i]);
            assert(is_header_value_byte(e[i + 7]));
            assert(t[i + 7] as u8 == e[i + 7]);
        }
    }
    if forall|i: int|
        0 <= i < api_key.len() ==> (#[trigger] api_key[i] >= ' ' && api_key[i] != '\x7f')
            || api_key[i] == '\t' {
        assert forall|i: int| 0 <= i < e.len() implies is_header_value_byte(#[trigger] e[i]) by {
            assert(t[i] as u8 == e[i]);
            if i >= 7 {
                assert(t[i] == api_key[i - 7]);
            }
        }
    }
}

/// The generation parameters that a configuration adds before `extra`.
pub open spec fn fixed_entries(config: ChatConfig) -> Seq<(Seq<char>, JsonView)> {
    seq![
        ("max_tokens"@, opt_u32_json(config.max_tokens)),
        ("temperature"@, opt_f64_json(config.temperature)),
        ("top_p"@, opt_f64_json(config.top_p)),
        ("n"@, opt_u32_json(config.n)),
        ("seed"@, opt_u64_json(config.seed)),
    ] + match config.response_format {
        Some(rf) => seq![("response_format"@, rf@)],
        None => Seq::<(Seq<char>, JsonView)>::empty(),
    }
}

/// A request's own entries, before the configuration's.
pub open spec fn own_entries(
    model: Seq<char>,
    messages: Seq<Message>,
    streaming: bool,
    response_format: Option<JsonView>,
) -> Seq<(Seq<char>, JsonView)> {
    seq![
        ("model"@, JsonView::Str(model)),
        ("messages"@, JsonView::Array(messages_json(messages))),
        ("stream"@, JsonView::Bool(streaming)),
        ("stream_options"@, include_usage_options()),
    ] + match response_format {
        Some(rf) => seq![("response_format"@, rf)],
        None => Seq::<(Seq<char>, JsonView)>::empty(),
    }
}

/// The generation parameters a configuration always adds.
pub open spec fn sampling_entries(config: ChatConfig) -> Seq<(Seq<char>, JsonView)> {
    seq![
        ("max_tokens"@, opt_u32_json(config.max_tokens)),
        ("temperature"@, opt_f64_json(config.temperature)),
        ("top_p"@, opt_f64_json(config.top_p)),
        ("n"@, opt_u32_json(config.n)),
        ("seed"@, opt_u64_json(config.seed)),
    ]
}

/// One entry for `key` when `v` is set, none otherwise.
pub open spec fn maybe_entry(key: Seq<char>, v: Option<JsonView>) -> Seq<(Seq<char>, JsonView)> {
    match v {
        Some(x) => seq![(key, x)],
        None => Seq::<(Seq<char>, JsonView)>::empty(),
    }
}

proof fn lemma_maybe_entry(key: Seq<char>, v: Option<JsonView>, k: Seq<char>)
    ensures
        entry_value(maybe_entry(key, v), k) == (if k == key {
            v
        } else {
            None
        }),
{
    if v is Some {
        reveal_with_fuel(last_key_index, 2);
        assert(maybe_entry(key, v).drop_last() =~= Seq::<(Seq<char>, JsonView)>::empty());
    } else {
        lemma_key_absent(maybe_entry(key, v), k);
    }
}

/// Reads from a list of entries with distinct keys: the value at the
/// position of `k`.
proof fn lemma_read_distinct(s: Seq<(Seq<char>, JsonView)>, i: int)
    requires
        0 <= i < s.len(),
        forall|j: int| 0 <= j < s.len() && j != i ==> #[trigger] s[j].0 != s[i].0,
    ensures
        entry_value(s, s[i].0) == Some(s[i].1),
{
    lemma_last_key_index_at(s, s[i].0, i);
}

/// The top-level keys a request body is made of.
pub open spec fn body_keys() -> Seq<Seq<char>> {
    seq![
        "model"@,
        "messages"@,
        "stream"@,
        "stream_options"@,
        "response_format"@,
        "max_tokens"@,
        "temperature"@,
        "top_p"@,
        "n"@,
        "seed"@,
    ]
}

proof fn lemma_body_keys_distinct()
    ensures
        forall|i: int, j: int|
            0 <= i < 10 && 0 <= j < 10 && i != j ==> #[trigger] body_keys()[i] != #[trigger] body_keys()[j],
{
    reveal_strlit("model");
    reveal_strlit("messages");
    reveal_strlit("stream");
    reveal_strlit("stream_options");
    reveal_strlit("response_format");
    reveal_strlit("max_tokens");
    reveal_strlit("temperature");
    reveal_strlit("top_p");
    reveal_strlit("n");
    reveal_strlit("seed");
    let k = body_keys();
    assert(k[0].len() == 5 && k[1].len() == 8 && k[2].len() == 6 && k[3].len() == 14);
    assert(k[4].len() == 15 && k[5].len() == 10 && k[6].len() == 11 && k[7].len() == 5);
    assert(k[8].len() == 1 && k[9].len() == 4);
    assert(k[0][0] == 'm' && k[7][0] == 't');
}

proof fn lemma_fixed_values(config: ChatConfig)
    ensures
        entry_value(fixed_entries(config), "max_tokens"@) == Some(opt_u32_json(config.max_tokens)),
        entry_value(fixed_entries(config), "temperature"@) == Some(opt_f64_json(config.temperature)),
        entry_value(fixed_entries(config), "top_p"@) == Some(opt_f64_json(config.top_p)),
        entry_value(fixed_entries(config), "n"@) == Some(opt_u32_json(config.n)),
        entry_value(fixed_entries(config), "seed"@) == Some(opt_u64_json(config.seed)),
        entry_value(fixed_entries(config), "response_format"@) == match config.response_format {
            Some(rf) => Some(rf@),
            None => None::<JsonView>,
        },
        entry_value(fixed_entries(config), "model"@) is None,
        entry_value(fixed_entries(config), "messages"@) is None,
        entry_value(fixed_entries(config), "stream"@) is None,
        entry_value(fixed_entries(config), "stream_options"@) is None,
{
    lemma_body_keys_distinct();
    let bk = body_keys();
    let five = sampling_entries(config);
    assert(five[0].0 == bk[5] && five[1].0 == bk[6] && five[2].0 == bk[7] && five[3].0 == bk[8] && five[4].0 == bk[9]);
    let rf = match config.response_format {
        Some(x) => Some(x@),
        None => None::<JsonView>,
    };
    let extra = maybe_entry("response_format"@, rf);
    assert(fixed_entries(config) =~= five + extra);
    let keys = seq!["max_tokens"@, "temperature"@, "top_p"@, "n"@, "seed"@];
    assert forall|i: int| 0 <= i < 5 implies entry_value(five + extra, #[trigger] keys[i]) == Some(five[i].1) by {
        assert forall|j: int| 0 <= j < five.len() && j != i implies #[trigger] five[j].0 != five[i].0 by {
            assert(five[j].0 == bk[j + 5] && five[i].0 == bk[i + 5]);
        }
        lemma_read_distinct(five, i);
        assert(keys[i] == bk[i + 5]);
        lemma_maybe_entry("response_format"@, rf, keys[i]);
        lemma_entry_value_concat(five, extra, keys[i]);
    }
    assert(keys[0] == "max_tokens"@ && keys[1] == "temperature"@ && keys[2] == "top_p"@);
    assert(keys[3] == "n"@ && keys[4] == "seed"@);
    let others = seq!["model"@, "messages"@, "stream"@, "stream_options"@, "response_format"@];
    assert forall|i: int| 0 <= i < 5 implies entry_value(five, #[trigger] others[i]) is None by {
        assert(others[i] == bk[i]);
        assert forall|j: int| 0 <= j < five.len() implies #[trigger] five[j].0 != others[i] by {
            assert(five[j].0 == bk[j + 5]);
        }
        lemma_key_absent(five, others[i]);
    }
    assert forall|i: int| 0 <= i < 5 implies entry_value(five + extra, #[trigger] others[i]) == (if i == 4 { rf } else { None }) by {
        assert(others[i] == bk[i] && bk[4] == "response_format"@);
        lemma_maybe_entry("response_format"@, rf, others[i]);
        lemma_entry_value_concat(five, extra, others[i]);
    }
    assert(others[0] == "model"@ && others[1] == "messages"@ && others[2] == "stream"@);
    assert(others[3] == "stream_options"@ && others[4] == "response_format"@);
}

proof fn lemma_own_values(
    model: Seq<char>,
    messages: Seq<Message>,
    streaming: bool,
    response_format: Option<JsonView>,
)
    ensures
        ({
            let own = own_entries(model, messages, streaming, response_format);
            &&& entry_value(own, "model"@) == Some(JsonView::Str(model))
            &&& entry_value(own, "messages"@) == Some(JsonView::Array(messages_json(messages)))
            &&& entry_value(own, "stream"@) == Some(JsonView::Bool(streaming))
            &&& entry_value(own, "stream_options"@) == Some(include_usage_options())
            &&& entry_value(own, "response_format"@) == response_format
        }),
{
    lemma_body_keys_distinct();
    let bk = body_keys();
    let four = seq![
        ("model"@, JsonView::Str(model)),
        ("messages"@, JsonView::Array(messages_json(messages))),
        ("stream"@, JsonView::Bool(streaming)),
        ("stream_options"@, include_usage_options()),
    ];
    let extra = maybe_entry("response_format"@, response_format);
    assert(own_entries(model, messages, streaming, response_format) =~= four + extra);
    let keys = seq!["model"@, "messages"@, "stream"@, "stream_options"@];
    assert forall|i: int| 0 <= i < 4 implies entry_value(four + extra, #[trigger] keys[i]) == Some(four[i].1) by {
        assert(keys[i] == bk[i] && four[i].0 == bk[i] && bk[4] == "response_format"@);
        assert forall|j: int| 0 <= j < four.len() && j != i implies #[trigger] four[j].0 != four[i].0 by {
            assert(four[j].0 == bk[j]);
        }
        lemma_read_distinct(four, i);
        lemma_maybe_entry("response_format"@, response_format, keys[i]);
        lemma_entry_value_concat(four, extra, keys[i]);
    }
    assert(keys[0] == "model"@ && keys[1] == "messages"@ && keys[2] == "stream"@ && keys[3] == "stream_options"@);
    assert forall|j: int| 0 <= j < four.len() implies #[trigger] four[j].0 != "response_format"@ by {
        assert(four[j].0 == bk[j] && bk[4] == "response_format"@);
    }
    lemma_key_absent(four, "response_format"@);
    lemma_maybe_entry("response_format"@, response_format, "response_format"@);
    lemma_entry_value_concat(four, extra, "response_format"@);
}

proof fn lemma_body_lookup(
    model: Seq<char>,
    messages: Seq<Message>,
    streaming: bool,
    response_format: Option<JsonView>,
    config: ChatConfig,
    k: Seq<char>,
)
    ensures
        body_spec(model, messages, streaming, response_format, config).get(k) == (if extra_sets(
            config,
            k,
        ) {
            entry_value(extra_entries(config.extra@), k)
        } else if entry_value(fixed_entries(config), k) is Some {
            entry_value(fixed_entries(config), k)
        } else {
            entry_value(own_entries(model, messages, streaming, response_format), k)
        }),
{
    let own = own_entries(model, messages, streaming, response_format);
    let fixed = fixed_entries(config);
    let ex = extra_entries(config.extra@);
    assert(own + config_entries(config) =~= (own + fixed) + ex);
    lemma_object_of_get(own + config_entries(config), k);
    lemma_entry_value_concat(own + fixed, ex, k);
    lemma_entry_value_concat(own, fixed, k);
}

/// What the body of a request holds: the model, the messages in OpenAI
/// form, whether it streams, the usage stream option, the response format
/// (the configuration's when it sets one, else the one asked for) and each
/// generation parameter of the configuration — unless the configuration's
/// `extra` sets that key, in which case `extra` has the last word.
pub proof fn law_request_body_fields(
    model: Seq<char>,
    messages: Seq<Message>,
    streaming: bool,
    response_format: Option<JsonView>,
    config: ChatConfig,
)
    ensures
        ({
            let b = body_spec(model, messages, streaming, response_format, config);
            &&& !extra_sets(config, "model"@) ==> b.get("model"@) == Some(JsonView::Str(model))
            &&& !extra_sets(config, "messages"@) ==> b.get("messages"@) == Some(
                JsonView::Array(messages_json(messages)),
            )
            &&& !extra_sets(config, "stream"@) ==> b.get("stream"@) == Some(JsonView::Bool(streaming))
            &&& !extra_sets(config, "stream_options"@) ==> b.get("stream_options"@) == Some(
                include_usage_options(),
            )
            &&& !extra_sets(config, "response_format"@) ==> b.get("response_format"@) == match config.response_format {
                Some(rf) => Some(rf@),
                None => response_format,
            }
            &&& !extra_sets(config, "max_tokens"@) ==> b.get("max_tokens"@) == Some(
                opt_u32_json(config.max_tokens),
            )
            &&& !extra_sets(config, "temperature"@) ==> b.get("temperature"@) == Some(
                opt_f64_json(config.temperature),
            )
            &&& !extra_sets(config, "top_p"@) ==> b.get("top_p"@) == Some(opt_f64_json(config.top_p))
            &&& !extra_sets(config, "n"@) ==> b.get("n"@) == Some(opt_u32_json(config.n))
            &&& !extra_sets(config, "seed"@) ==> b.get("seed"@) == Some(opt_u64_json(config.seed))
            &&& forall|k: Seq<char>|
                extra_sets(config, k) ==> #[trigger] b.get(k) == entry_value(
                    extra_entries(config.extra@),
                    k,
                )
        }),
{
    assert forall|k: Seq<char>| extra_sets(config, k) implies #[trigger] body_spec(
        model,
        messages,
        streaming,
        response_format,
        config,
    ).get(k) == entry_value(extra_entries(config.extra@), k) by {
        lemma_body_lookup(model, messages, streaming, response_format, config, k);
    }
    lemma_fixed_values(config);
    lemma_own_values(model, messages, streaming, response_format);
    lemma_body_lookup(model, messages, streaming, response_format, config, "model"@);
    lemma_body_lookup(model, messages, streaming, response_format, config, "messages"@);
    lemma_body_lookup(model, messages, streaming, response_format, config, "stream"@);
    lemma_body_lookup(model, messages, streaming, response_format, config, "stream_options"@);
    lemma_body_lookup(model, messages, streaming, response_format, config, "response_format"@);
    lemma_body_lookup(model, messages, streaming, response_format, config, "max_tokens"@);
    lemma_body_lookup(model, messages, streaming, response_format, config, "temperature"@);
    lemma_body_lookup(model, messages, streaming, response_format, config, "top_p"@);
    lemma_body_lookup(model, messages, streaming, response_format, config, "n"@);
    lemma_body_lookup(model, messages, streaming, response_format, config, "seed"@);
}

/// With no `response_format` in the configuration (nor set by its
/// `extra`), the body of a structured request is the plain body with a
/// `response_format` added: the plain body holds none, the structured one
/// holds the format asked for, and every other key reads the same in both.
pub proof fn law_schema_body_adds_format(
    model: Seq<char>,
    messages: Seq<Message>,
    streaming: bool,
    config: ChatConfig,
    format: JsonView,
)
    requires
        config.response_format is None,
        !extra_sets(config, "response_format"@),
    ensures
        body_spec(model, messages, streaming, None, config).get("response_format"@) is None,
        body_spec(model, messages, streaming, Some(format), config).get("response_format"@) == Some(
            format,
        ),
        forall|k: Seq<char>|
            k != "response_format"@ ==> #[trigger] body_spec(
                model,
                messages,
                streaming,
                Some(format),
                config,
            ).get(k) == body_spec(model, messages, streaming, None, config).get(k),
{
    lemma_fixed_values(config);
    lemma_own_values(model, messages, streaming, None);
    lemma_own_values(model, messages, streaming, Some(format));
    lemma_body_lookup(model, messages, streaming, None, config, "response_format"@);
    lemma_body_lookup(model, messages, streaming, Some(format), config, "response_format"@);
    let four = seq![
        ("model"@, JsonView::Str(model)),
        ("messages"@, JsonView::Array(messages_json(messages))),
        ("stream"@, JsonView::Bool(streaming)),
        ("stream_options"@, include_usage_options()),
    ];
    assert forall|k: Seq<char>| k != "response_format"@ implies #[trigger] body_spec(
        model,
        messages,
        streaming,
        Some(format),
        config,
    ).get(k) == body_spec(model, messages, streaming, None, config).get(k) by {
        lemma_body_lookup(model, messages, streaming, None, config, k);
        lemma_body_lookup(model, messages, streaming, Some(format), config, k);
        let with = maybe_entry("response_format"@, Some(format));
        let without = maybe_entry("response_format"@, None);
        assert(own_entries(model, messages, streaming, Some(format)) =~= four + with);
        assert(own_entries(model, messages, streaming, None) =~= four + without);
        lemma_maybe_entry("response_format"@, Some(format), k);
        lemma_maybe_entry("response_format"@, None, k);
        lemma_entry_value_concat(four, with, k);
        lemma_entry_value_concat(four, without, k);
    }
}

/// In a structured request of the plain client, `response_format` is the
/// schema's, whatever the configuration holds.
pub proof fn law_structured_body_format(
    model: Seq<char>,
    messages: Seq<Message>,
    config: ChatConfig,
    format: JsonView,
)
    ensures
        plain_body_spec(model, messages, config).with_entry("response_format"@, format).get(
            "response_format"@,
        ) == Some(format),
{
    let es = seq![
        ("model"@, JsonView::Str(model)),
        ("messages"@, JsonView::Array(messages_json(messages))),
    ] + config_entries(config);
    lemma_object_of_get(es, "response_format"@);
    lemma_with_entry_get(plain_body_spec(model, messages, config), "response_format"@, format, "response_format"@);
}

/// A streaming request of the plain client asks for a stream, whatever
/// the configuration holds.
pub proof fn law_stream_body_streams(model: Seq<char>, messages: Seq<Message>, config: ChatConfig)
    ensures
        plain_body_spec(model, messages, config).with_entry("stream"@, JsonView::Bool(true)).get(
            "stream"@,
        ) == Some(JsonView::Bool(true)),
{
    let es = seq![
        ("model"@, JsonView::Str(model)),
        ("messages"@, JsonView::Array(messages_json(messages))),
    ] + config_entries(config);
    lemma_object_of_get(es, "stream"@);
    lemma_with_entry_get(plain_body_spec(model, messages, config), "stream"@, JsonView::Bool(true), "stream"@);
}

/// Taking a line out of buffered bytes loses none of them: the bytes are
/// the line's, the newline, and what stays buffered.
pub proof fn law_line_split_keeps_bytes(buffered: Seq<u8>)
    ensures
        ({
            let p = first_newline(buffered);
            p >= 0 ==> {
                &&& p < buffered.len()
                &&& buffered[p] == 10
                &&& buffered == buffered.subrange(0, p) + seq![10u8] + buffered.subrange(
                    p + 1,
                    buffered.len() as int,
                )
                &&& forall|j: int| 0 <= j < p ==> #[trigger] buffered[j] != 10
            }
        }),
    decreases buffered.len(),
{
    let p = first_newline(buffered);
    if buffered.len() > 0 && buffered[0] != 10 {
        let t = buffered.drop_first();
        law_line_split_keeps_bytes(t);
        if p >= 0 {
            assert(buffered[p] == t[p - 1]);
            assert forall|j: int| 0 <= j < p implies #[trigger] buffered[j] != 10 by {
                if j > 0 {
                    assert(buffered[j] == t[j - 1]);
                }
            }
        }
    }
    if p >= 0 {
        assert(buffered =~= buffered.subrange(0, p) + seq![10u8] + buffered.subrange(
            p + 1,
            buffered.len() as int,
        ));
    }
}

/// Where the first newline of buffered bytes stands, if anywhere.
proof fn lemma_first_newline_spec(s: Seq<u8>)
    ensures
        -1 <= first_newline(s) < s.len(),
        first_newline(s) >= 0 ==> s[first_newline(s)] == 10,
        forall|j: int|
            0 <= j < s.len() && (first_newline(s) < 0 || j < first_newline(s)) ==> #[trigger] s[j]
                != 10,
    decreases s.len(),
{
    if s.len() > 0 && s[0] != 10 {
        let t = s.drop_first();
        lemma_first_newline_spec(t);
        assert forall|j: int|
            0 <= j < s.len() && (first_newline(s) < 0 || j < first_newline(s)) implies #[trigger] s[j]
            != 10 by {
            if j > 0 {
                assert(s[j] == t[j - 1]);
            }
        }
    }
}

proof fn lemma_first_newline_concat(s: Seq<u8>, t: Seq<u8>)
    ensures
        first_newline(s) >= 0 ==> first_newline(s + t) == first_newline(s),
        first_newline(s) < 0 && first_newline(t) >= 0 ==> first_newline(s + t) == s.len()
            + first_newline(t),
        first_newline(s) < 0 && first_newline(t) < 0 ==> first_newline(s + t) < 0,
{
    lemma_first_newline_spec(s);
    lemma_first_newline_spec(t);
    let st = s + t;
    let p = first_newline(s);
    if p >= 0 {
        assert forall|j: int| 0 <= j < p implies #[trigger] st[j] != 10 by {
            assert(st[j] == s[j]);
        }
        assert(st[p] == s[p]);
        crate::client::llm_client::lemma_first_newline(st, p);
    } else {
        let q = first_newline(t);
        let i = if q >= 0 {
            s.len() + q
        } else {
            st.len() as int
        };
        assert forall|j: int| 0 <= j < i implies #[trigger] st[j] != 10 by {
            if j < s.len() {
                assert(st[j] == s[j]);
            } else {
                assert(st[j] == t[j - s.len()]);
            }
        }
        if q >= 0 {
            assert(st[i] == t[q]);
        }
        crate::client::llm_client::lemma_first_newline(st, i);
    }
}

/// What stays buffered after taking out every complete line holds no
/// newline.
pub proof fn law_leftover_has_no_newline(s: Seq<u8>)
    ensures
        first_newline(complete_lines(s).1) < 0,
    decreases s.len(),
{
    lemma_first_newline_spec(s);
    let p = first_newline(s);
    if p >= 0 {
        law_leftover_has_no_newline(s.subrange(p + 1, s.len() as int));
    }
}

/// Taking out the complete lines of `s + t` gives the lines of `s`, then
/// the lines of what `s` left over followed by `t`.
pub proof fn law_complete_lines_concat(s: Seq<u8>, t: Seq<u8>)
    ensures
        ({
            let first = complete_lines(s);
            let second = complete_lines(first.1 + t);
            complete_lines(s + t) == (first.0 + second.0, second.1)
        }),
    decreases s.len(),
{
    lemma_first_newline_spec(s);
    lemma_first_newline_concat(s, t);
    let p = first_newline(s);
    let st = s + t;
    if p >= 0 {
        let rest = s.subrange(p + 1, s.len() as int);
        law_complete_lines_concat(rest, t);
        assert(st.subrange(0, p) =~= s.subrange(0, p));
        assert(st.subrange(p + 1, st.len() as int) =~= rest + t);
        let first = complete_lines(s);
        let second = complete_lines(first.1 + t);
        let r = complete_lines(rest);
        assert(first.0 =~= seq![line_text(s.subrange(0, p))] + r.0);
        assert(complete_lines(st).0 =~= first.0 + second.0);
    } else {
        let first = complete_lines(s);
        assert(first.1 == s);
        assert(first.0 + complete_lines(s + t).0 =~= complete_lines(s + t).0);
    }
}

/// The lines that a reader gets and the bytes it keeps when it receives
/// `chunks` one after the other, with `pending` buffered at the start, and
/// takes out every complete line after each chunk.
pub open spec fn lines_after_chunks(pending: Seq<u8>, chunks: Seq<Seq<u8>>) -> (
    Seq<Seq<char>>,
    Seq<u8>,
)
    decreases chunks.len(),
{
    if chunks.len() == 0 {
        (Seq::empty(), pending)
    } else {
        let first = complete_lines(pending + chunks[0]);
        let rest = lines_after_chunks(first.1, chunks.drop_first());
        (first.0 + rest.0, rest.1)
    }
}

/// Where a streamed reply is cut into chunks does not change the lines read
/// from it: receiving the chunks one by one, taking out every complete
/// line after each, gives the complete lines of all the bytes at once.
pub proof fn law_chunk_boundaries_do_not_matter(pending: Seq<u8>, chunks: Seq<Seq<u8>>)
    requires
        first_newline(pending) < 0,
    ensures
        lines_after_chunks(pending, chunks) == complete_lines(pending + chunks.flatten()),
    decreases chunks.len(),
{
    if chunks.len() == 0 {
        assert(pending + chunks.flatten() =~= pending);
    } else {
        let c0 = chunks[0];
        let rest = chunks.drop_first();
        assert(chunks.flatten() == c0 + rest.flatten());
        assert(pending + chunks.flatten() =~= (pending + c0) + rest.flatten());
        let first = complete_lines(pending + c0);
        law_leftover_has_no_newline(pending + c0);
        law_chunk_boundaries_do_not_matter(first.1, rest);
        law_complete_lines_concat(pending + c0, rest.flatten());
    }
}

/// Two readers that receive the same bytes, cut into chunks at different
/// places, read the same lines.
pub proof fn law_same_bytes_same_lines(a: Seq<Seq<u8>>, b: Seq<Seq<u8>>)
    requires
        a.flatten() == b.flatten(),
    ensures
        lines_after_chunks(Seq::empty(), a).0 == lines_after_chunks(Seq::empty(), b).0,
{
    let e = Seq::<u8>::empty();
    assert(first_newline(e) == -1);
    law_chunk_boundaries_do_not_matter(e, a);
    law_chunk_boundaries_do_not_matter(e, b);
}

/// Each role has a wire name of its own, so a name gives back its role.
pub proof fn law_role_names_distinct(a: Role, b: Role)
    ensures
        role_name(a) == role_name(b) ==> a == b,
{
    reveal_strlit("system");
    reveal_strlit("user");
    reveal_strlit("assistant");
    assert("system"@.len() == 6 && "user"@.len() == 4 && "assistant"@.len() == 9);
}

/// Each image format has a name of its own, so a name gives back its format.
pub proof fn law_format_names_distinct(a: ImageFormat, b: ImageFormat)
    ensures
        format_name(a) == format_name(b) ==> a == b,
{
    reveal_strlit("png");
    reveal_strlit("jpeg");
    reveal_strlit("jpg");
    reveal_strlit("webp");
    assert("png"@.len() == 3 && "jpg"@.len() == 3 && "jpeg"@.len() == 4 && "webp"@.len() == 4);
    assert("png"@[0] == 'p' && "jpg"@[0] == 'j' && "jpeg"@[0] == 'j' && "webp"@[0] == 'w');
}

/// A chat completion response is read from its first choice's `message`:
/// the text fields are the strings found there (`None` when a field is
/// missing or not a string), the finish reason is the one the choice
/// names, and the usage is that of a reported, non-null `usage` field.
/// Without a non-empty `choices` array the answer is `NoChoices`.
pub proof fn law_response_read_from_message(data: JsonView, r: Result<ChatResponse, Error>)
    requires
        reads_as_response(data, r),
    ensures
        !(data.at("choices"@) matches JsonView::Array(cs) && cs.len() > 0) ==> r matches Err(
            Error::NoChoices,
        ),
        r matches Ok(resp) ==> {
            &&& data.at("choices"@) matches JsonView::Array(cs) && cs.len() > 0
            &&& {
                let choice = data.at("choices"@)->Array_0[0];
                let message = choice.at("message"@);
                &&& opt_str_view(resp.id) == data.at("id"@).as_str()
                &&& opt_str_view(resp.content) == message.at("content"@).as_str()
                &&& opt_str_view(resp.reasoning) == message.at("reasoning_content"@).as_str()
                &&& opt_str_view(resp.refusal) == message.at("refusal"@).as_str()
                &&& match choice.at("finish_reason"@) {
                    JsonView::Str(name) => resp.finish_reason == Some(finish_reason_named(name)),
                    _ => resp.finish_reason is None,
                }
                &&& match data.get("usage"@) {
                    None => resp.usage is None,
                    Some(JsonView::Null) => resp.usage is None,
                    Some(u) => decode_usage(u) is Some && resp.usage == decode_usage(u),
                }
            }
        },
{
}

/// A streamed chunk with a non-empty `choices` array is read from its first
/// choice's `delta`: the text fields are the strings found there (`None`
/// when a field is missing or not a string), the finish reason is the one
/// the choice names, and the usage is that of a reported, non-null `usage`
/// field. An empty `choices` array with a reported usage gives a chunk
/// holding that usage alone. Without a `choices` array the answer is
/// `NoChoices`.
pub proof fn law_chunk_read_from_delta(data: JsonView, r: Result<StreamChunk, Error>)
    requires
        reads_as_chunk(data, r),
    ensures
        !(data.at("choices"@) is Array) ==> r matches Err(Error::NoChoices),
        r matches Ok(c) ==> data.at("choices"@) is Array,
        r matches Ok(c) ==> data.at("choices"@)->Array_0.len() > 0 ==> {
            let choice = data.at("choices"@)->Array_0[0];
            let delta = choice.at("delta"@);
            &&& opt_str_view(c.id) == data.at("id"@).as_str()
            &&& opt_str_view(c.content) == delta.at("content"@).as_str()
            &&& opt_str_view(c.reasoning) == delta.at("reasoning_content"@).as_str()
            &&& opt_str_view(c.refusal) == delta.at("refusal"@).as_str()
            &&& match choice.at("finish_reason"@) {
                JsonView::Str(name) => c.finish_reason == Some(finish_reason_named(name)),
                _ => c.finish_reason is None,
            }
            &&& match data.get("usage"@) {
                None => c.usage is None,
                Some(JsonView::Null) => c.usage is None,
                Some(u) => decode_usage(u) is Some && c.usage == decode_usage(u),
            }
        },
        r matches Ok(c) ==> data.at("choices"@)->Array_0.len() == 0 ==> {
            &&& c.id is None && c.content is None && c.reasoning is None && c.refusal is None
            &&& c.finish_reason is None
            &&& data.get("usage"@) matches Some(u) && u != JsonView::Null && c.usage == decode_usage(u)
            &&& c.usage is Some
        },
{
}

/// The finish reasons are named "stop", "length", "tool_calls" and
/// "content_filter"; any other name is an unknown reason.
pub proof fn law_finish_reason_names(name: Seq<char>)
    ensures
        finish_reason_named("stop"@) == FinishReason::Stop,
        finish_reason_named("length"@) == FinishReason::Length,
        finish_reason_named("tool_calls"@) == FinishReason::ToolCalls,
        finish_reason_named("content_filter"@) == FinishReason::ContentFilter,
        name != "stop"@ && name != "length"@ && name != "tool_calls"@ && name != "content_filter"@
            ==> finish_reason_named(name) == FinishReason::Unknown,
{
    reveal_strlit("stop");
    reveal_strlit("length");
    reveal_strlit("tool_calls");
    reveal_strlit("content_filter");
    assert("stop"@.len() == 4 && "length"@.len() == 6 && "tool_calls"@.len() == 10);
    assert("content_filter"@.len() == 14);
}

/// Usage statistics given as an object are read field by field: a missing
/// count is 0, a count written as an integer from 0 to `u32::MAX` is that
/// number; when each count is one or the other, the statistics are read.
pub proof fn law_usage_object_counts(u: JsonView)
    requires
        u is Object,
    ensures
        ({
            let ok = |f: Seq<char>|
                u.get(f) is None || (u.get(f) matches Some(JsonView::Number(JsonNumber::PosInt(n)))
                    && n <= u32::MAX);
            ok("prompt_tokens"@) && ok("completion_tokens"@) && ok("total_tokens"@) ==> decode_usage(u) is Some
        }),
        decode_usage(u) matches Some(x) ==> {
            &&& u.get("prompt_tokens"@) is None ==> x.prompt_tokens == 0
            &&& u.get("completion_tokens"@) is None ==> x.completion_tokens == 0
            &&& u.get("total_tokens"@) is None ==> x.total_tokens == 0
            &&& u.get("prompt_tokens"@) matches Some(JsonView::Number(JsonNumber::PosInt(n)))
                ==> x.prompt_tokens == n
            &&& u.get("completion_tokens"@) matches Some(JsonView::Number(JsonNumber::PosInt(n)))
                ==> x.completion_tokens == n
            &&& u.get("total_tokens"@) matches Some(JsonView::Number(JsonNumber::PosInt(n)))
                ==> x.total_tokens == n
        },
{
}

/// A message's JSON holds its role under "role", by its wire name, and
/// its parts, in order, under "content".
pub proof fn law_message_json_fields(m: Message)
    ensures
        message_json(m).get("role"@) == Some(
            JsonView::Str(
                match m.role {
                    Role::System => "system"@,
                    Role::User => "user"@,
                    Role::Assistant => "assistant"@,
                },
            ),
        ),
        message_json(m).get("content"@) matches Some(JsonView::Array(items)) && items.len()
            == m.parts@.len() && forall|i: int|
            0 <= i < items.len() ==> #[trigger] items[i] == content_part_json(m.parts@[i]),
{
    reveal_strlit("role");
    reveal_strlit("content");
    let es = message_json(m)->Object_0;
    assert("role"@.len() == 4 && "content"@.len() == 7);
    assert(es[0].0 == "role"@ && es[1].0 == "content"@);
    lemma_read_distinct(es, 0);
    lemma_read_distinct(es, 1);
}

/// A text part's JSON is `{"type": "text", "text": <text>}`; an image
/// part's is `{"type": "image_url", "image_url": {"url": <data URL>}}`,
/// where the data URL is "data:image/", the format's lower-case name,
/// ";base64," and the data.
pub proof fn law_content_part_json_fields(p: ContentPart)
    ensures
        match p {
            ContentPart::Text { text } => {
                &&& content_part_json(p).get("type"@) == Some(JsonView::Str("text"@))
                &&& content_part_json(p).get("text"@) == Some(JsonView::Str(text@))
            },
            ContentPart::Image { data, format } => {
                &&& content_part_json(p).get("type"@) == Some(JsonView::Str("image_url"@))
                &&& content_part_json(p).get("image_url"@) is Some
                &&& content_part_json(p).at("image_url"@).get("url"@) == Some(
                    JsonView::Str(
                        "data:image/"@ + match format {
                            ImageFormat::Png => "png"@,
                            ImageFormat::Jpeg => "jpeg"@,
                            ImageFormat::Jpg => "jpg"@,
                            ImageFormat::Webp => "webp"@,
                        } + ";base64,"@ + data@,
                    ),
                )
            },
        },
{
    reveal_strlit("type");
    reveal_strlit("text");
    reveal_strlit("image_url");
    reveal_strlit("url");
    assert("type"@.len() == 4 && "text"@.len() == 4 && "image_url"@.len() == 9);
    assert("type"@[1] == 'y' && "text"@[1] == 'e');
    let es = content_part_json(p)->Object_0;
    lemma_read_distinct(es, 0);
    lemma_read_distinct(es, 1);
    match p {
        ContentPart::Image { data, format } => {
            let inner = content_part_json(p).at("image_url"@)->Object_0;
            lemma_read_distinct(inner, 0);
        },
        _ => {},
    }
}

/// The entries a body of the plain client is made of, before the
/// configuration's.
pub open spec fn plain_own_entries(model: Seq<char>, messages: Seq<Message>) -> Seq<(Seq<char>, JsonView)> {
    seq![("model"@, JsonView::Str(model)), ("messages"@, JsonView::Array(messages_json(messages)))]
}

proof fn lemma_plain_body_lookup(model: Seq<char>, messages: Seq<Message>, config: ChatConfig, k: Seq<char>)
    ensures
        plain_body_spec(model, messages, config).get(k) == (if extra_sets(config, k) {
            entry_value(extra_entries(config.extra@), k)
        } else if entry_value(fixed_entries(config), k) is Some {
            entry_value(fixed_entries(config), k)
        } else {
            entry_value(plain_own_entries(model, messages), k)
        }),
{
    let own = plain_own_entries(model, messages);
    let fixed = fixed_entries(config);
    let ex = extra_entries(config.extra@);
    assert(own + config_entries(config) =~= (own + fixed) + ex);
    lemma_object_of_get(own + config_entries(config), k);
    lemma_entry_value_concat(own + fixed, ex, k);
    lemma_entry_value_concat(own, fixed, k);
}

/// The messages of a request are sent as the JSON of each message, in the
/// order given; the model is sent as given (both clients; unless `extra`
/// sets these keys).
pub proof fn law_messages_sent_in_order(
    model: Seq<char>,
    messages: Seq<Message>,
    streaming: bool,
    response_format: Option<JsonView>,
    config: ChatConfig,
)
    ensures
        !extra_sets(config, "messages"@) ==> (plain_body_spec(model, messages, config).get("messages"@)
            matches Some(JsonView::Array(items)) && items.len() == messages.len() && forall|i: int|
            0 <= i < items.len() ==> #[trigger] items[i] == message_json(messages[i])),
        !extra_sets(config, "model"@) ==> plain_body_spec(model, messages, config).get("model"@)
            == Some(JsonView::Str(model)),
        !extra_sets(config, "messages"@) ==> (body_spec(
            model,
            messages,
            streaming,
            response_format,
            config,
        ).get("messages"@) matches Some(JsonView::Array(items)) && items.len() == messages.len()
            && forall|i: int| 0 <= i < items.len() ==> #[trigger] items[i] == message_json(messages[i])),
{
    law_request_body_fields(model, messages, streaming, response_format, config);
    lemma_fixed_values(config);
    lemma_plain_body_lookup(model, messages, config, "messages"@);
    lemma_plain_body_lookup(model, messages, config, "model"@);
    reveal_strlit("model");
    reveal_strlit("messages");
    assert("model"@.len() == 5 && "messages"@.len() == 8);
    let own = plain_own_entries(model, messages);
    lemma_read_distinct(own, 0);
    lemma_read_distinct(own, 1);
}

/// A sampling parameter that is set to a finite float is sent as that
/// number, 0.0 and -0.0 included; one that is unset, infinite or NaN is
/// sent as `null` (both clients; unless `extra` sets the key).
pub proof fn law_sampling_parameters_sent(
    model: Seq<char>,
    messages: Seq<Message>,
    streaming: bool,
    response_format: Option<JsonView>,
    config: ChatConfig,
)
    ensures
        ({
            let expected = |v: Option<u64>|
                match v {
                    Some(b) => if (b >> 52u64) & 0x7ffu64 != 0x7ffu64 {
                        JsonView::Number(JsonNumber::Float(b))
                    } else {
                        JsonView::Null
                    },
                    None => JsonView::Null,
                };
            let b1 = body_spec(model, messages, streaming, response_format, config);
            let b2 = plain_body_spec(model, messages, config);
            &&& !extra_sets(config, "temperature"@) ==> b1.get("temperature"@) == Some(
                expected(config.temperature),
            ) && b2.get("temperature"@) == Some(expected(config.temperature))
            &&& !extra_sets(config, "top_p"@) ==> b1.get("top_p"@) == Some(expected(config.top_p))
                && b2.get("top_p"@) == Some(expected(config.top_p))
            &&& !extra_sets(config, "max_tokens"@) ==> b1.get("max_tokens"@) == Some(
                match config.max_tokens {
                    Some(n) => JsonView::Number(JsonNumber::PosInt(n as u64)),
                    None => JsonView::Null,
                },
            )
            &&& !extra_sets(config, "seed"@) ==> b1.get("seed"@) == Some(
                match config.seed {
                    Some(n) => JsonView::Number(JsonNumber::PosInt(n)),
                    None => JsonView::Null,
                },
            )
        }),
{
    law_request_body_fields(model, messages, streaming, response_format, config);
    lemma_fixed_values(config);
    lemma_plain_body_lookup(model, messages, config, "temperature"@);
    lemma_plain_body_lookup(model, messages, config, "top_p"@);
}

/// The stream options of every request are `{"include_usage": true}`.
pub proof fn law_stream_options_include_usage()
    ensures
        include_usage_options() == JsonView::Object(seq![("include_usage"@, JsonView::Bool(true))]),
{
    reveal_with_fuel(crate::json::with_entries, 2);
    let es = seq![("include_usage"@, JsonView::Bool(true))];
    assert(es.drop_last() =~= Seq::<(Seq<char>, JsonView)>::empty());
    assert(JsonView::Object(Seq::<(Seq<char>, JsonView)>::empty()).with_entry("include_usage"@, JsonView::Bool(true))
        == JsonView::Object(Seq::<(Seq<char>, JsonView)>::empty().push(("include_usage"@, JsonView::Bool(true)))));
    assert(Seq::<(Seq<char>, JsonView)>::empty().push(("include_usage"@, JsonView::Bool(true))) =~= es);
}

/// The response format asked for with a schema is
/// `{"type": "json_schema", "json_schema": {"name": <name>, "schema": <schema>, "strict": true}}`.
pub proof fn law_schema_format_fields(name: Seq<char>, schema: JsonView)
    ensures
        schema_format(name, schema).get("type"@) == Some(JsonView::Str("json_schema"@)),
        schema_format(name, schema).get("json_schema"@) is Some,
        schema_format(name, schema).at("json_schema"@).get("name"@) == Some(JsonView::Str(name)),
        schema_format(name, schema).at("json_schema"@).get("schema"@) == Some(schema),
        schema_format(name, schema).at("json_schema"@).get("strict"@) == Some(JsonView::Bool(true)),
{
    reveal_strlit("type");
    reveal_strlit("json_schema");
    reveal_strlit("name");
    reveal_strlit("schema");
    reveal_strlit("strict");
    assert("type"@.len() == 4 && "json_schema"@.len() == 11);
    assert("name"@.len() == 4 && "schema"@.len() == 6 && "strict"@.len() == 6);
    assert("schema"@[1] == 'c' && "strict"@[1] == 't');
    let inner = seq![
        ("name"@, JsonView::Str(name)),
        ("schema"@, schema),
        ("strict"@, JsonView::Bool(true)),
    ];
    let outer = seq![
        ("type"@, JsonView::Str("json_schema"@)),
        ("json_schema"@, crate::json::object_of(inner)),
    ];
    lemma_object_of_get(outer, "type"@);
    lemma_object_of_get(outer, "json_schema"@);
    lemma_read_distinct(outer, 0);
    lemma_read_distinct(outer, 1);
    lemma_object_of_get(inner, "name"@);
    lemma_object_of_get(inner, "schema"@);
    lemma_object_of_get(inner, "strict"@);
    assert(inner[0].0 == "name"@ && inner[1].0 == "schema"@ && inner[2].0 == "strict"@);
    lemma_read_distinct(inner, 0);
    lemma_read_distinct(inner, 1);
    lemma_read_distinct(inner, 2);
}

/// Requests are authorized by the header "authorization" whose text is
/// "Bearer " followed by the API key.
pub proof fn law_authorization_text(api_key: Seq<char>)
    ensures
        bearer_text(api_key) == "Bearer "@ + api_key,
        authorization_name() == "authorization"@,
{
    reveal_strlit("authorization");
    assert(authorization_name() =~= "authorization"@);
}

} // verus!
