# oai_rs

A client for OpenAI-compatible chat completion APIs (OpenAI, vLLM, Ollama,
DeepSeek, llama.cpp, ...), written in Verus: the request bodies, endpoint and
headers it builds and the way it reads replies — whole responses, streamed
server-sent events and structured output — are stated in contracts and proved.

Layout:

- `src/json.rs` — the JSON value model (`Json`, its view `JsonView`), object
  reads and writes, and their laws.
- `src/types/` — roles, content parts, messages and the error type.
- `src/completion/` — generation parameters, request bodies, responses and
  stream chunks, and the `LLMClient` with the decisions taken on each event of
  a streamed reply.
- `src/client/` — a client whose replies are the assistant's text, with its
  SSE line reading and line buffering.
- `src/transport.rs`, `src/headers.rs` — the endpoint URL and the
  `Authorization` header.
- `src/text.rs` — string helpers (comparison, trimming, path segments).
- `src/laws.rs` — properties that span several functions.
- `app/` — HTTP, tasks and threads, serde derives and the conversions between
  `serde_json::Value` and `Json`.

Sampling parameters (`temperature`, `top_p`) are floats; the library holds
them as the bits of an `f64`, and `app/` converts from and to `f32`.
