# rusty-llm

A proxy in front of DataForSEO's LLM scraper endpoints for Gemini and ChatGPT, as a
Cloudflare Worker. Everything it decides stands in a library that Verus verifies;
the worker around it reads, sends and waits.

## Layout

- `src/` is the library.
  - `router`: which handler a request goes to.
  - `auth`: the key that a request brings, and the secrets.
  - `validation`, `keyword`, `providers`: reading a request from its body.
  - `request_id`: version 4 UUIDs.
  - `dataforseo`, `encoding`: tasks, credentials, and the envelope of two providers'
    outcomes.
  - `exchange`: what is sent upstream, when it is sent again, what comes of the answers.
  - `metadata`, `cents`, `double`: what an answer says of itself, and its headers.
  - `intake`: what is read of a request, in which order, and when it is refused.
  - `llm`, `record`: the answer to a request, and its log line.
  - `errors`, `response`, `health`: what callers are answered.
  - `json`, `text`, `truncation`: documents and texts.
- `tests/` runs the library.
- `app/` is the worker.

## What is taken on trust

`serde_json`, `base64`, `getrandom` and `url` are called, not verified. What the library
relies on is stated where each is called: in `json`, `encoding`, `request_id` and
`auth`. Of the standard library, `String::push` and `char::is_whitespace` are taken at
their documentation.

What a JSON text spells and how a document is written are names, `parsed` and `rendered`,
tied together by one fact: a document that does not nest too deep is read back from its
text, but for the last digits of floats.
