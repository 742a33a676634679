//! Generation parameters sent alongside every chat completion request.

use vstd::prelude::*;
use crate::json::{Json, JsonNumber, JsonView, append_entries, empty_object, entries_view, json_view};

verus! {

/// Generation parameters for a chat completion request.
///
/// The two sampling parameters are floating-point numbers; they are held
/// here as the IEEE-754 bits of the `f64` they stand for. Provider-specific
/// or otherwise unsupported parameters (`reasoning_effort`,
/// `frequency_penalty`, `top_k`, ...) go in `extra`, an object whose
/// entries are sent as parameters of their own.
#[derive(Clone)]
pub struct ChatConfig {
    /// Maximum number of tokens to generate.
    pub max_tokens: Option<u32>,
    /// Sampling temperature (bits of an `f64`).
    pub temperature: Option<u64>,
    /// Nucleus sampling parameter (bits of an `f64`).
    pub top_p: Option<u64>,
    /// Number of completions to generate.
    pub n: Option<u32>,
    /// Random seed for reproducibility.
    pub seed: Option<u64>,
    /// Constrains the model's output to a specific JSON Schema.
    pub response_format: Option<Json>,
    /// Additional provider-specific parameters: an object whose entries are
    /// sent at the top level of the request (any other value is sent under
    /// the key `extra`).
    pub extra: Json,
}

impl Default for ChatConfig {
    fn default() -> (r: Self)
        ensures
            r.max_tokens is None,
            r.temperature is None,
            r.top_p is None,
            r.n is None,
            r.seed is None,
            r.response_format is None,
            r.extra@ == JsonView::Object(Seq::empty()),
    {
        ChatConfig {
            max_tokens: None,
            temperature: None,
            top_p: None,
            n: None,
            seed: None,
            response_format: None,
            extra: empty_object(),
        }
    }
}

/// Whether `bits` are those of a finite `f64` (not an infinity, not NaN).
pub open spec fn is_finite_f64_bits(bits: u64) -> bool {
    (bits >> 52u64) & 0x7ffu64 != 0x7ffu64
}

/// An optional 32-bit count as JSON: the number, or `null`.
pub open spec fn opt_u32_json(v: Option<u32>) -> JsonView {
    match v {
        Some(n) => JsonView::Number(JsonNumber::PosInt(n as u64)),
        None => JsonView::Null,
    }
}

/// An optional 64-bit integer as JSON: the number, or `null`.
pub open spec fn opt_u64_json(v: Option<u64>) -> JsonView {
    match v {
        Some(n) => JsonView::Number(JsonNumber::PosInt(n)),
        None => JsonView::Null,
    }
}

/// An optional float (as `f64` bits) as JSON: the number when it is finite,
/// `null` when it is absent, infinite or NaN.
pub open spec fn opt_f64_json(v: Option<u64>) -> JsonView {
    match v {
        Some(bits) => if is_finite_f64_bits(bits) {
            JsonView::Number(JsonNumber::Float(bits))
        } else {
            JsonView::Null
        },
        None => JsonView::Null,
    }
}

/// The parameters that `extra` adds to a request: the entries of an
/// object; any other value is sent as it is, under the key `extra`.
pub open spec fn extra_entries(extra: JsonView) -> Seq<(Seq<char>, JsonView)> {
    match extra {
        JsonView::Object(es) => es,
        _ => seq![("extra"@, extra)],
    }
}

/// The entries that a configuration adds to a request body, in order:
/// every sampling field (`null` when unset), `response_format` only when it
/// is set, then the entries of `extra`.
pub open spec fn config_entries(c: ChatConfig) -> Seq<(Seq<char>, JsonView)> {
    seq![
        ("max_tokens"@, opt_u32_json(c.max_tokens)),
        ("temperature"@, opt_f64_json(c.temperature)),
        ("top_p"@, opt_f64_json(c.top_p)),
        ("n"@, opt_u32_json(c.n)),
        ("seed"@, opt_u64_json(c.seed)),
    ] + match c.response_format {
        Some(rf) => seq![("response_format"@, rf@)],
        None => Seq::empty(),
    } + extra_entries(c.extra@)
}

fn u32_json(v: Option<u32>) -> (r: Json)
    ensures
        r@ == opt_u32_json(v),
{
    match v {
        Some(n) => Json::Number(JsonNumber::PosInt(n as u64)),
        None => Json::Null,
    }
}

fn u64_json(v: Option<u64>) -> (r: Json)
    ensures
        r@ == opt_u64_json(v),
{
    match v {
        Some(n) => Json::Number(JsonNumber::PosInt(n)),
        None => Json::Null,
    }
}

fn f64_json(v: Option<u64>) -> (r: Json)
    ensures
        r@ == opt_f64_json(v),
{
    match v {
        Some(bits) => if (bits >> 52u64) & 0x7ffu64 != 0x7ffu64 {
            Json::Number(JsonNumber::Float(bits))
        } else {
            Json::Null
        },
        None => Json::Null,
    }
}

impl ChatConfig {
    /// The entries this configuration adds to a request body.
    pub fn body_entries(&self) -> (r: Vec<(String, Json)>)
        ensures
            entries_view(r@) == config_entries(*self),
    {
        let mut r: Vec<(String, Json)> = Vec::new();
        r.push((String::from_str("max_tokens"), u32_json(self.max_tokens)));
        r.push((String::from_str("temperature"), f64_json(self.temperature)));
        r.push((String::from_str("top_p"), f64_json(self.top_p)));
        r.push((String::from_str("n"), u32_json(self.n)));
        r.push((String::from_str("seed"), u64_json(self.seed)));
        match &self.response_format {
            Some(rf) => r.push((String::from_str("response_format"), rf.clone())),
            None => {},
        }
        let ghost fixed = r@;
        match &self.extra {
            Json::Object(es) => {
                append_entries(&mut r, es);
                assert(entries_view(r@) =~= config_entries(*self));
            },
            other => {
                r.push((String::from_str("extra"), other.clone()));
                assert(entries_view(r@) =~= config_entries(*self));
            },
        }
        r
    }
}

} // verus!
