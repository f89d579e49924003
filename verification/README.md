# ltengine

The logic of a local language-model server: an HTTP interface for responses,
conversations and background jobs over one loaded model, written in Verus.

- `src/` is the library. It reads and validates requests, makes prompts, builds
  response objects and event streams, keeps the rules of storage, expiry and
  cancellation, plans generations and decodes them. Every function states what it
  returns, and what holds of the library as a whole stands beside the functions as
  proof functions whose names begin with `law_`.
- `app/` is the server around it: arguments, files, the HTTP routes and the calls
  into the model.
- `tests/` run the library on concrete values.

The library takes `serde_json` and `serde` for reading and writing JSON and
`encoding_rs` for decoding bytes. What is taken on trust of them and of the standard
library is stated where they are called, in `src/json.rs`, `src/json_text.rs`,
`src/records.rs`, `src/llm_decode.rs` and `src/text.rs`.
