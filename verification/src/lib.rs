//! The logic of a local language-model server with an HTTP interface for
//! responses, conversations and background jobs.
//!
//! The library reads requests, decides what they ask for, puts prompts and
//! replies together, and keeps the rules of storage, cancellation and decoding. It
//! does no input or output: where outside work is needed, it says what to do next
//! and takes what came of it.
//!
//! - [`json`], [`json_text`] and [`records`] hold JSON values, their text and their
//!   typed records; [`text`] and [`seqs`] hold what is needed of texts and
//!   sequences.
//! - [`responses`] reads and validates a request and makes its prompt, with the
//!   parts of a request in the modules named after them; [`responses_create`] goes
//!   from the request to the reply.
//! - [`responses_shape`] and [`responses_events`] build the response object and its
//!   event stream.
//! - [`responses_store`], [`responses_limits`], [`responses_retrieve`],
//!   [`responses_conversations`] and [`responses_background`] keep what is stored.
//! - [`llm`], [`llm_decode`] and [`llm_output`] plan a generation, decode it and
//!   clean its text.
//!
//! What holds of several functions together is stated in proof functions whose names
//! begin with `law_`, beside the functions or in the modules whose names end in `_laws`.

pub mod json;
pub mod json_text;
pub mod llm;
pub mod llm_decode;
pub mod llm_output;
pub mod records;
pub mod responses;
pub mod responses_background;
pub mod responses_body_laws;
pub mod responses_conversations;
pub mod responses_create;
pub mod responses_events;
pub mod responses_generation;
pub mod responses_history_laws;
pub mod responses_http;
pub mod responses_input;
pub mod responses_input_laws;
pub mod responses_limits;
pub mod responses_metadata;
pub mod responses_output_laws;
pub mod responses_profile;
pub mod responses_prompt_laws;
pub mod responses_reasoning;
pub mod responses_request_laws;
pub mod responses_retrieve;
pub mod responses_schema;
pub mod responses_service_laws;
pub mod responses_shape;
pub mod responses_store;
pub mod responses_tools;
pub mod responses_tools_laws;
pub mod seqs;
pub mod text;
