# omnihook

Webhook notifications for Slack, Discord, Telegram and generic endpoints, with
HMAC-SHA256 signing of the delivered payload, written in Verus.

- `src/` is the verified library: the payload builders and the MarkdownV2
  escaping (`payload_builder.rs`, `markdown.rs`, `json.rs`), the client
  configuration, signing and request headers (`client.rs`, `headers.rs`,
  `string_map.rs`, `text.rs`), the handling of a failed response's body
  (`error_body.rs`) and the error type (`error.rs`).
- `app/` sends the requests: it serializes payloads with `serde_json`, reads the
  clock, performs the HTTP exchange with `reqwest-middleware`, and gives the
  error type `Display` and `std::error::Error`.
- `tests/` exercises the library on concrete values.
