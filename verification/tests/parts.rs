use std::collections::BTreeMap;

use ltengine::json::Json;
use ltengine::json_text::{json_from_str, json_to_string};
use ltengine::llm::{GenerationFailure, LLMError, TokenUsage, DEFAULT_TOP_P};
use ltengine::responses::{decode_request, validate_request, Grammars};
use ltengine::responses_background::{
    cancel_response, BackgroundJob, CancelRegistry, Cancellation, JobOutcome,
};
use ltengine::responses_conversations::{
    add_items, conversation_stored, create_conversation, delete_conversation, delete_item,
    get_conversation, get_item, is_blank_body, item_deleted, items_added, list_items,
    parse_conversation_body, parse_items_body, refuse_no_items, update_conversation,
};
use ltengine::responses_create::{
    create_response, plan_generation, CreateSettings, Creation, CreationAction, CreationEvent,
    GenerationPlan,
};
use ltengine::responses_generation::{
    derive_generation, number_in_range, GenerationEcho, RangeEnd,
};
use ltengine::responses_http::{
    auth_guard, check_auth, error_json, extractor_error, first_query_field, not_found,
    query_fields, strict_guard, Reply, ReplyBody,
};
use ltengine::responses_limits::{
    is_expired, load_conversation, load_response, storage_full_message, Loaded, WriteScan,
};
use ltengine::responses_metadata::validate_metadata;
use ltengine::responses_profile::ResponsesApi;
use ltengine::responses_reasoning::{
    decode_reasoning, derive_reasoning, ReasoningEffect, ResponseReasoning, EFFORT_VALUES,
};
use ltengine::responses_retrieve::{
    admit_retrieval, delete_response, get_response, list_input_items, parse_retrieve_query,
    RetrieveQuery,
};
use ltengine::responses_schema::{derive_text, Verbosity};
use ltengine::responses_shape::IdSource;
use ltengine::responses_store::{
    conversation_file, deleted_conversation, deleted_response, found_conversation, found_response,
    listed_response_id, put_conversation, put_response, read_conversation, read_response,
    response_file, valid_conversation_id, valid_id, ConversationRecord, RecordWrite, StoreErrorKind,
    StoredResponse,
};
use serde_json::Value;

fn json(text: &str) -> Json {
    json_from_str(text).expect("JSON")
}

fn items(text: &str) -> Vec<Json> {
    match json(text) {
        Json::Array(items) => items,
        _ => panic!("a list"),
    }
}

fn value(json: &Json) -> Value {
    serde_json::from_str(&json_to_string(json)).expect("JSON")
}

fn body(reply: &Reply) -> Value {
    match &reply.body {
        ReplyBody::Json(body) => value(body),
        ReplyBody::Events(_) => panic!("a JSON body"),
    }
}

fn message(reply: &Reply) -> String {
    body(reply)["error"]["message"].as_str().unwrap_or_default().to_string()
}

fn ids() -> IdSource {
    IdSource { nanos: 0xabc, count: 0 }
}

/// A directory of files in memory, kept by the plans of the library.
#[derive(Default)]
struct Files {
    files: BTreeMap<String, Vec<u8>>,
}

impl Files {
    fn write(&mut self, write: RecordWrite) {
        self.files.insert(write.temp_file.clone(), write.bytes);
        let bytes = self.files.remove(&write.temp_file).expect("written");
        self.files.insert(write.file, bytes);
    }

    fn contents(&self, file: Option<String>) -> Option<&[u8]> {
        file.and_then(|file| self.files.get(&file)).map(|bytes| bytes.as_slice())
    }

    fn remove(&mut self, file: Option<String>) -> bool {
        file.is_some_and(|file| self.files.remove(&file).is_some())
    }

    fn put(&mut self, id: &str, record: &StoredResponse) -> Result<(), String> {
        let write = put_response(id, record).map_err(|error| error.message)?;
        self.write(write);
        Ok(())
    }

    fn get(&self, id: &str) -> Result<Option<StoredResponse>, String> {
        found_response(id, self.contents(response_file(id)), Ok(()))
    }

    fn delete(&mut self, id: &str) -> Result<bool, String> {
        let removed = self.remove(response_file(id));
        Ok(deleted_response(id, removed))
    }

    fn put_conversation(&mut self, id: &str, record: &ConversationRecord) -> Result<(), String> {
        let write = put_conversation(id, record).map_err(|error| error.message)?;
        self.write(write);
        Ok(())
    }

    fn get_conversation(&self, id: &str) -> Result<Option<ConversationRecord>, String> {
        found_conversation(id, self.contents(conversation_file(id)), Ok(()))
    }

    fn delete_conversation(&mut self, id: &str) -> Result<bool, String> {
        let removed = self.remove(conversation_file(id));
        Ok(deleted_conversation(id, removed))
    }

    fn load_conversation(
        &mut self,
        id: &str,
        retention: u64,
        now: u64,
    ) -> Result<Loaded<ConversationRecord>, String> {
        let loaded = load_conversation(self.get_conversation(id)?, retention, now);
        if matches!(loaded, Loaded::Expired) {
            self.delete_conversation(id)?;
        }
        Ok(loaded)
    }

    fn load(&mut self, id: &str, retention: u64, now: u64) -> Option<StoredResponse> {
        match load_response(self.get(id).expect("get"), retention, now) {
            Loaded::Live(record) => Some(record),
            Loaded::Expired => {
                self.delete(id).expect("delete");
                None
            }
            Loaded::Missing => None,
        }
    }

    fn prepare(&mut self, retention: u64, limit: usize, now: u64) -> bool {
        let names: Vec<String> =
            self.files.keys().filter_map(|name| listed_response_id(name)).collect();
        let mut scan = WriteScan::new();
        for id in names {
            if let Some(record) = self.get(&id).expect("get") {
                if scan.step(&record, retention, now) {
                    self.delete(&id).expect("delete");
                }
            }
        }
        scan.fits(limit)
    }
}

fn record(text: &str) -> StoredResponse {
    StoredResponse {
        response: json(&format!(r#"{{"id":"resp_1","object":"response","output":"{text}"}}"#)),
        input_items: items(r#"[{"role":"user","content":"hi"}]"#),
    }
}

fn timed(id: &str, created_at: u64) -> StoredResponse {
    StoredResponse {
        response: json(&format!(
            r#"{{"id":"{id}","created_at":{created_at},"status":"completed"}}"#
        )),
        input_items: Vec::new(),
    }
}

#[test]
fn round_trips_one_response() {
    let mut store = Files::default();
    store.put("resp_1", &record("hello")).expect("put");
    let loaded = store.get("resp_1").expect("get").expect("present");
    assert_eq!(loaded, record("hello"));
}

#[test]
fn get_and_delete_report_a_missing_record() {
    let mut store = Files::default();
    assert_eq!(store.get("resp_1").expect("get"), None);
    assert!(!store.delete("resp_1").expect("delete"));
}

#[test]
fn delete_removes_the_record() {
    let mut store = Files::default();
    store.put("resp_1", &record("hello")).expect("put");
    assert!(store.delete("resp_1").expect("delete"));
    assert_eq!(store.get("resp_1").expect("get"), None);
}

#[test]
fn rejects_a_traversal_id() {
    let mut store = Files::default();
    for id in ["../escape", "resp_", "resp_AB", "resp_xyz", "other_1"] {
        assert!(!valid_id(id), "{id}");
        assert_eq!(store.get(id).expect("get"), None, "{id}");
        assert!(!store.delete(id).expect("delete"), "{id}");
        assert!(store.put(id, &record("x")).is_err(), "{id}");
        assert_eq!(response_file(id), None);
    }
    assert!(store.files.is_empty());
    let error = put_response("../escape", &record("x")).unwrap_err();
    assert_eq!(error.kind, StoreErrorKind::InvalidInput);
    assert_eq!(error.message, "invalid response id: ../escape");
    assert_eq!(found_response("../escape", Some(b"{}"), Ok(())), Ok(None));
    assert!(!deleted_response("../escape", true));
}

#[test]
fn a_stored_response_outlives_calls_under_other_identifiers() {
    let mut store = Files::default();
    store.put("resp_1", &record("kept")).expect("put");
    store.put("resp_12", &record("other")).expect("put");
    store.put_conversation("conv_1", &conversation()).expect("put");
    let broken = put_response("resp_2", &record("broken")).expect("plan");
    store.files.insert(broken.temp_file, b"{".to_vec());
    assert!(store.delete("resp_12").expect("delete"));
    assert!(!store.delete("conv_1").expect("delete"));
    assert!(store.delete_conversation("conv_1").expect("delete"));
    assert_eq!(store.get("resp_1").expect("get"), Some(record("kept")));
    assert_eq!(store.get("resp_2").expect("get"), None);
    assert!(store.delete("resp_1").expect("delete"));
    store.put("resp_3", &record("later")).expect("put");
    assert_eq!(store.get("resp_1").expect("get"), None);
    assert!(!store.delete("resp_1").expect("delete"));
}

#[test]
fn the_identifiers_of_a_run_differ() {
    let times = [0xffff_ffff_ffff_fffeu128, 0xffff_ffff_ffff_ffff, 0x1_0000_0000_0000_0000];
    let mut taken: Vec<String> = Vec::new();
    let mut count = u64::MAX - 20;
    for i in 0..60usize {
        let mut source = IdSource { nanos: times[i / 20], count };
        taken.push(source.new_id(if i % 2 == 0 { "fc_" } else { "call_" }));
        count = source.count;
    }
    taken.sort();
    taken.dedup();
    assert_eq!(taken.len(), 60);
}

#[test]
fn digits_of_time_and_count_can_run_together() {
    let first = IdSource { nanos: 0x1, count: 0x23 }.new_id("resp_");
    let second = IdSource { nanos: 0x12, count: 0x3 }.new_id("resp_");
    assert_eq!(first, "resp_123");
    assert_eq!(first, second);
}

#[test]
fn found_items_can_be_deleted() {
    for (item_id, found) in [("msg_1", true), ("msg_2", false)] {
        let reply = get_item("conv_1", item_id, Ok(Loaded::Live(conversation())));
        assert_eq!(reply.status == 200, found, "{item_id}");
        let removed = delete_item("conv_1", item_id, Ok(Loaded::Live(conversation())));
        assert_eq!(removed.is_ok(), found, "{item_id}");
    }
}

#[test]
fn an_unreadable_record_is_an_error() {
    let mut store = Files::default();
    store.files.insert("resp_3.json".to_string(), b"{not json".to_vec());
    assert!(store.get("resp_3").is_err());
    assert_eq!(read_response(b"{}", Ok(())).unwrap_err(), "missing field `response`");
    assert_eq!(
        read_response(br#"{"response":1,"input_items":2}"#, Ok(())).unwrap_err(),
        "invalid type: integer `2`, expected a sequence"
    );
    assert_eq!(
        read_conversation(
            br#"{"id":"c","created_at":-1,"metadata":null,"items":[]}"#,
            Ok(())
        )
        .unwrap_err(),
        "invalid value: integer `-1`, expected u64"
    );
}

#[test]
fn a_failed_direct_decoding_holds() {
    let twice = br#"{"response":1,"response":2,"input_items":[]}"#;
    let direct = || Err("duplicate field `response` at line 1 column 25".to_string());
    assert_eq!(
        read_response(twice, direct()).unwrap_err(),
        "duplicate field `response` at line 1 column 25"
    );
    assert_eq!(
        read_conversation(b"{}", Err("missing field `id`".to_string())).unwrap_err(),
        "missing field `id`"
    );
}

#[test]
fn records_are_written_in_their_order() {
    let write = put_response("resp_1", &record("x")).expect("plan");
    assert_eq!(write.file, "resp_1.json");
    assert_eq!(write.temp_file, "resp_1.json.tmp");
    assert_eq!(
        String::from_utf8(write.bytes).expect("text"),
        r#"{"response":{"id":"resp_1","object":"response","output":"x"},"input_items":[{"content":"hi","role":"user"}]}"#
    );
    let write = put_conversation("conv_1", &conversation()).expect("plan");
    assert_eq!(
        String::from_utf8(write.bytes).expect("text"),
        r#"{"id":"conv_1","created_at":1,"metadata":null,"items":[{"content":"hi","id":"msg_1","role":"user"}]}"#
    );
}

#[test]
fn valid_id_accepts_the_generated_form() {
    assert!(valid_id(&ids().new_id("resp_")));
    assert!(valid_id("resp_0123456789abcdef"));
}

fn conversation() -> ConversationRecord {
    ConversationRecord {
        id: "conv_1".to_string(),
        created_at: 1,
        metadata: Json::Null,
        items: items(r#"[{"id":"msg_1","role":"user","content":"hi"}]"#),
    }
}

#[test]
fn conversation_round_trip_and_delete() {
    let mut store = Files::default();
    store.put_conversation("conv_1", &conversation()).expect("put");
    assert_eq!(store.get_conversation("conv_1").expect("get"), Some(conversation()));
    assert!(store.delete_conversation("conv_1").expect("delete"));
    assert_eq!(store.get_conversation("conv_1").expect("get"), None);
    assert!(!store.delete_conversation("conv_1").expect("delete"));
}

#[test]
fn rejects_a_conversation_traversal_id() {
    let mut store = Files::default();
    for id in ["../escape", "conv_", "conv_AB", "conv_xyz", "resp_1"] {
        assert!(!valid_conversation_id(id), "{id}");
        assert_eq!(store.get_conversation(id).expect("get"), None, "{id}");
        assert!(!store.delete_conversation(id).expect("delete"), "{id}");
        assert!(store.put_conversation(id, &conversation()).is_err(), "{id}");
    }
    assert!(store.files.is_empty());
    let error = put_conversation("resp_1", &conversation()).unwrap_err();
    assert_eq!(error.kind, StoreErrorKind::InvalidInput);
    assert_eq!(error.message, "invalid conversation id: resp_1");
    assert_eq!(found_conversation("resp_1", Some(b"{}"), Ok(())), Ok(None));
    assert!(!deleted_conversation("resp_1", true));
}

#[test]
fn only_response_files_are_listed() {
    assert_eq!(listed_response_id("resp_1a.json").as_deref(), Some("resp_1a"));
    for name in ["resp_1a.json.tmp", "conv_1.json", "resp_.json", "resp_1a", ".json", "x"] {
        assert_eq!(listed_response_id(name), None, "{name}");
    }
}

#[test]
fn prepare_removes_expired() {
    let now: u64 = 1_000_000;
    let mut store = Files::default();
    store.put("resp_1", &timed("resp_1", 1)).expect("put");
    store.put("resp_2", &timed("resp_2", now)).expect("put");
    assert!(store.prepare(1, 2, now));
    assert_eq!(store.get("resp_1").expect("get"), None);
    assert!(store.get("resp_2").expect("get").is_some());
}

#[test]
fn limit_is_reached() {
    let now: u64 = 1_000_000;
    let mut store = Files::default();
    store.put("resp_1", &timed("resp_1", now)).expect("put");
    assert!(!store.prepare(0, 1, now));
    assert!(store.prepare(0, 0, now));
    assert!(store.prepare(0, 2, now));
    assert_eq!(storage_full_message(1), "the response storage limit of 1 is reached");
}

#[test]
fn fresh_response_is_kept() {
    let now: u64 = 1_000_000;
    let mut store = Files::default();
    store.put("resp_1", &timed("resp_1", now)).expect("put");
    assert!(store.load("resp_1", 3600, now).is_some());
    assert!(store.load("resp_1", 0, now).is_some());
}

#[test]
fn expired_response_is_not_found() {
    let mut store = Files::default();
    store.put("resp_1", &timed("resp_1", 1)).expect("put");
    assert_eq!(store.load("resp_1", 1, 1_000_000), None);
    assert_eq!(store.get("resp_1").expect("get"), None);
}

#[test]
fn a_record_is_kept_for_the_whole_retention() {
    assert!(!is_expired(100, 10, 110));
    assert!(is_expired(100, 10, 111));
    assert!(!is_expired(100, 0, u64::MAX));
    assert!(!is_expired(100, 10, 5));
}

#[test]
fn error_json_selects_the_type_from_the_status() {
    let bad = error_json(400, "x".to_string());
    assert_eq!(bad.status, 400);
    assert_eq!(body(&bad)["error"]["type"], "invalid_request_error");
    let server = error_json(500, "boom".to_string());
    assert_eq!(server.status, 500);
    assert_eq!(body(&server)["error"]["type"], "server_error");
    assert_eq!(error_json(42, "x".to_string()).status, 500);
    assert_eq!(error_json(1000, "x".to_string()).status, 500);
}

#[test]
fn not_found_names_the_identifier() {
    let reply = not_found("resp_abc");
    assert_eq!(reply.status, 404);
    assert_eq!(message(&reply), "No response found with id 'resp_abc'");
}

#[test]
fn oversized_body_returns_nested_error() {
    let reply = extractor_error(413, "too large");
    assert_eq!(reply.status, 413);
    assert_eq!(body(&reply)["error"]["type"], "invalid_request_error");
    assert_eq!(body(&reply)["error"]["code"], Value::Null);
    assert!(message(&reply).contains("invalid request body"));
}

#[test]
fn check_auth_accepts_the_configured_bearer() {
    assert!(check_auth("", None).is_ok());
    assert!(check_auth("secret", Some("Bearer secret")).is_ok());
    assert!(check_auth("secret", Some("Bearer wrong")).is_err());
    assert!(check_auth("secret", None).is_err());
}

#[test]
fn first_query_field_reports_the_first_name() {
    assert_eq!(first_query_field(""), None);
    assert_eq!(first_query_field("stream=true"), Some("stream".to_string()));
    assert_eq!(first_query_field("a=1&b=2"), Some("a".to_string()));
    assert_eq!(first_query_field("include"), Some("include".to_string()));
    assert_eq!(
        query_fields("a=1=2&b"),
        vec![("a".to_string(), Some("1=2".to_string())), ("b".to_string(), None)]
    );
}

fn replayable() -> StoredResponse {
    StoredResponse {
        response: json(
            r#"{"id":"resp_1","object":"response","created_at":1,"status":"completed","model":"gemma3-4b","metadata":null,"parallel_tool_calls":false,"tool_choice":"none","tools":[],"output":[{"id":"msg_out_1","type":"message","status":"completed","role":"assistant","content":[{"type":"output_text","text":"hello","annotations":[]}]}],"usage":{"input_tokens":1,"output_tokens":1,"total_tokens":2}}"#,
        ),
        input_items: items(
            r#"[{"id":"msg_1","role":"user","content":"first"},{"id":"msg_2","role":"user","content":"second"}]"#,
        ),
    }
}

const PLAIN: RetrieveQuery = RetrieveQuery { stream: false, starting_after: None };

#[test]
fn get_returns_the_stored_body() {
    let reply = get_response(PLAIN, "resp_1", Ok(Some(replayable())));
    assert_eq!(reply.status, 200);
    assert_eq!(body(&reply), value(&replayable().response));
}

#[test]
fn unknown_id_returns_the_rd22_body() {
    let reply = get_response(PLAIN, "resp_missing", Ok(None));
    assert_eq!(reply.status, 404);
    assert_eq!(message(&reply), "No response found with id 'resp_missing'");
    assert_eq!(body(&reply)["error"]["type"], "invalid_request_error");
    assert!(body(&reply)["error"]["param"].is_null());
    assert!(body(&reply)["error"]["code"].is_null());
    let reply = get_response(PLAIN, "resp_1", Err("bad disk".to_string()));
    assert_eq!(reply.status, 500);
    assert_eq!(message(&reply), "failed to read the response store: bad disk");
}

#[test]
fn responses_retrieve_delete_then_get_is_not_found() {
    let mut store = Files::default();
    store.put("resp_1", &replayable()).expect("put");
    let reply = delete_response("resp_1", store.delete("resp_1"));
    assert_eq!(reply.status, 200);
    assert_eq!(
        json_to_string(&json(&body(&reply).to_string())),
        r#"{"deleted":true,"id":"resp_1","object":"response"}"#
    );
    assert_eq!(get_response(PLAIN, "resp_1", store.get("resp_1")).status, 404);
}

#[test]
fn delete_unknown_returns_the_rd22_body() {
    let reply = delete_response("resp_missing", Ok(false));
    assert_eq!(reply.status, 404);
    assert_eq!(message(&reply), "No response found with id 'resp_missing'");
    let reply = delete_response("resp_1", Err("bad disk".to_string()));
    assert_eq!(message(&reply), "failed to delete from the response store: bad disk");
}

#[test]
fn input_items_list_shape_and_order() {
    let reply = list_input_items("resp_1", Ok(Some(replayable())));
    assert_eq!(reply.status, 200);
    let body = body(&reply);
    assert_eq!(body["object"], "list");
    assert_eq!(body["has_more"], false);
    assert_eq!(body["first_id"], "msg_1");
    assert_eq!(body["last_id"], "msg_2");
    assert_eq!(body["data"][0]["content"], "first");
    assert_eq!(body["data"][1]["content"], "second");
}

#[test]
fn unsupported_query_field_is_400() {
    let reply = admit_retrieval("secret", Some("Bearer secret"), "include=x").unwrap_err();
    assert_eq!(reply.status, 400);
    assert!(message(&reply).contains("include"));
    let reply = strict_guard("secret", Some("Bearer secret"), "limit=1").expect("refused");
    assert_eq!(reply.status, 400);
    assert!(message(&reply).contains("limit"));
}

#[test]
fn list_requires_the_bearer_credential() {
    assert_eq!(admit_retrieval("secret", None, "").unwrap_err().status, 401);
    assert_eq!(strict_guard("secret", None, "").expect("refused").status, 401);
    assert_eq!(auth_guard("secret", Some("Bearer wrong")).expect("refused").status, 401);
    assert!(auth_guard("secret", Some("Bearer secret")).is_none());
    assert!(strict_guard("secret", Some("Bearer secret"), "").is_none());
}

#[test]
fn an_invalid_identifier_is_not_found() {
    let store = Files::default();
    assert_eq!(get_response(PLAIN, "../escape", store.get("../escape")).status, 404);
}

/// The JSON payloads of an event stream.
fn parse_sse(body: &str) -> Vec<Value> {
    body.split("\n\n")
        .filter(|frame| !frame.trim().is_empty())
        .map(|frame| {
            let data = frame
                .lines()
                .find_map(|line| line.strip_prefix("data: "))
                .expect("frame has a data line");
            serde_json::from_str(data).expect("payload is JSON")
        })
        .collect()
}

fn replay(query: &str) -> Vec<Value> {
    let query = parse_retrieve_query(query).expect("query");
    let reply = get_response(query, "resp_1", Ok(Some(replayable())));
    assert_eq!(reply.status, 200);
    match reply.body {
        ReplyBody::Events(body) => parse_sse(&body),
        ReplyBody::Json(_) => panic!("an event stream"),
    }
}

#[test]
fn stream_true_returns_sse() {
    let events = replay("stream=true");
    let types: Vec<&str> = events.iter().map(|event| event["type"].as_str().unwrap()).collect();
    assert_eq!(
        types,
        [
            "response.created",
            "response.in_progress",
            "response.output_item.added",
            "response.content_part.added",
            "response.output_text.delta",
            "response.output_text.done",
            "response.content_part.done",
            "response.output_item.done",
            "response.completed",
        ]
    );
    for (index, event) in events.iter().enumerate() {
        assert_eq!(event["sequence_number"], index);
    }
    assert_eq!(events[8]["response"], value(&replayable().response));
}

#[test]
fn starting_after_filters() {
    let full = replay("stream=true");
    let tail = replay("stream=true&starting_after=2");
    assert_eq!(tail, full[3..]);
    assert_eq!(tail[0]["sequence_number"], 3);
}

#[test]
fn stream_false_returns_json() {
    for query in ["", "stream=false"] {
        let query = parse_retrieve_query(query).expect("query");
        let reply = get_response(query, "resp_1", Ok(Some(replayable())));
        assert_eq!(reply.status, 200);
        assert_eq!(body(&reply), value(&replayable().response));
    }
}

#[test]
fn bad_stream_value_is_400() {
    for query in ["stream=maybe", "stream", "stream="] {
        let reply = parse_retrieve_query(query).unwrap_err();
        assert_eq!(reply.status, 400, "{query}");
        assert!(message(&reply).contains("stream"), "{query}");
    }
}

#[test]
fn starting_after_requires_stream() {
    for query in ["starting_after=2", "stream=true&starting_after=abc"] {
        let reply = parse_retrieve_query(query).unwrap_err();
        assert_eq!(reply.status, 400, "{query}");
        assert!(message(&reply).contains("starting_after"), "{query}");
    }
    assert_eq!(
        parse_retrieve_query("starting_after=%2B7&stream=true").unwrap_err().status,
        400
    );
    assert_eq!(
        parse_retrieve_query("starting_after=+7&stream=true").expect("query"),
        RetrieveQuery { stream: true, starting_after: Some(7) }
    );
    assert!(parse_retrieve_query("stream=true&starting_after=4294967296").is_err());
}

#[test]
fn unknown_stream_is_404() {
    let query = parse_retrieve_query("stream=true").expect("query");
    let reply = get_response(query, "resp_missing", Ok(None));
    assert_eq!(reply.status, 404);
    assert_eq!(message(&reply), "No response found with id 'resp_missing'");
    let reply = get_response(query, "resp_1", Ok(Some(record("x"))));
    assert_eq!(reply.status, 500);
    assert_eq!(message(&reply), "the stored response cannot be replayed");
}

#[test]
fn create_returns_the_object() {
    let record = create_conversation(&mut ids(), 5, Some(json(r#"{"a":"b"}"#)));
    let reply = conversation_stored(&record, Ok(()));
    assert_eq!(reply.status, 200);
    let object = body(&reply);
    assert_eq!(object["id"], "conv_abc0");
    assert_eq!(object["object"], "conversation");
    assert_eq!(object["created_at"], 5);
    assert_eq!(object["metadata"]["a"], "b");
    assert!(validate_metadata(Some(&json(r#"{"a":1}"#))).unwrap_err().contains("metadata"));
    let (status, refused) =
        parse_conversation_body(br#"{"metadata":{"a":1}}"#, Ok(())).unwrap_err();
    assert_eq!(status, 400);
    assert!(refused.contains("metadata"), "{refused}");
    let reply = conversation_stored(&record, Err("bad disk".to_string()));
    assert_eq!(reply.status, 500);
    assert_eq!(message(&reply), "failed to store the conversation: bad disk");
    assert!(is_blank_body(b" \r\n\t"));
    assert!(!is_blank_body(b" {}"));
}

fn live() -> Result<Loaded<ConversationRecord>, String> {
    Ok(Loaded::Live(conversation()))
}

#[test]
fn get_and_unknown_id() {
    let reply = get_conversation("conv_1", live());
    assert_eq!(reply.status, 200);
    assert_eq!(body(&reply)["id"], "conv_1");
    assert!(body(&reply)["metadata"].is_null());
    let reply = get_conversation("conv_missing", Ok(Loaded::Missing));
    assert_eq!(reply.status, 404);
    assert_eq!(message(&reply), "No conversation found with id 'conv_missing'");
    let reply = get_conversation("conv_1", Err("bad disk".to_string()));
    assert_eq!(reply.status, 500);
    assert_eq!(message(&reply), "failed to read the conversation store: bad disk");
}

#[test]
fn update_replaces_metadata() {
    let updated =
        update_conversation("conv_1", Some(json(r#"{"b":"c"}"#)), live()).expect("updated");
    assert_eq!(body(&conversation_stored(&updated, Ok(())))["metadata"]["b"], "c");
    assert_eq!(updated.items, conversation().items);
    assert!(update_conversation("conv_2", None, Ok(Loaded::Missing)).is_err());
}

#[test]
fn responses_conversations_delete_then_get_is_not_found() {
    let mut store = Files::default();
    store.put_conversation("conv_1", &conversation()).expect("put");
    let reply = delete_conversation("conv_1", store.delete_conversation("conv_1"));
    assert_eq!(reply.status, 200);
    assert_eq!(body(&reply)["object"], "conversation.deleted");
    assert_eq!(body(&reply)["deleted"], true);
    let loaded = store.load_conversation("conv_1", 0, 1);
    assert_eq!(get_conversation("conv_1", loaded).status, 404);
}

#[test]
fn add_items_assigns_ids_and_lists() {
    let mut store = Files::default();
    let mut ids = ids();
    let empty = create_conversation(&mut ids, 5, None);
    let id = empty.id.clone();
    store.put_conversation(&id, &empty).expect("put");
    for text in ["first", "second"] {
        let new = items(&format!(r#"[{{"role":"user","content":"{text}"}}]"#));
        assert!(refuse_no_items(&new).is_none());
        let loaded = store.load_conversation(&id, 0, 6);
        let (record, created) = add_items(&mut ids, &id, new, loaded, 0).expect("added");
        let reply = items_added(created, store.put_conversation(&id, &record));
        assert_eq!(reply.status, 200);
        assert!(body(&reply)["data"][0]["id"].as_str().unwrap().starts_with("msg_"));
    }
    let list = body(&list_items(&id, store.load_conversation(&id, 0, 6)));
    assert_eq!(list["object"], "list");
    assert_eq!(list["has_more"], false);
    assert_eq!(list["data"][0]["content"], "first");
    assert_eq!(list["data"][1]["content"], "second");
    assert_eq!(list["first_id"], list["data"][0]["id"]);
    assert_eq!(list["last_id"], list["data"][1]["id"]);
    assert_eq!(refuse_no_items(&Vec::new()).expect("refused").status, 400);
}

#[test]
fn added_items_get_the_prefix_of_their_type() {
    let new = items(
        r#"[{"type":"function_call"},{"type":"function_call_output"},{"type":"other"},{"id":"mine","type":"x"},7]"#,
    );
    let (_, created) = add_items(&mut ids(), "conv_1", new, live(), 0).expect("added");
    let named: Vec<Value> = created.iter().map(value).collect();
    assert_eq!(named[0]["id"], "fc_abc0");
    assert_eq!(named[1]["id"], "fco_abc1");
    assert_eq!(named[2]["id"], "msg_abc2");
    assert_eq!(named[3]["id"], "mine");
    assert_eq!(named[4], 7);
}

#[test]
fn get_and_delete_item() {
    assert_eq!(body(&get_item("conv_1", "msg_1", live()))["content"], "hi");
    let record = delete_item("conv_1", "msg_1", live()).expect("removed");
    assert!(record.items.is_empty());
    let reply = item_deleted("msg_1", Ok(()));
    assert_eq!(body(&reply)["object"], "conversation.item.deleted");
    let reply = get_item("conv_1", "msg_1", Ok(Loaded::Live(record)));
    assert_eq!(reply.status, 404);
    assert!(message(&reply).contains("No conversation item found"));
    let reply = delete_item("conv_1", "msg_9", live()).unwrap_err();
    assert_eq!(message(&reply), "No conversation item found with id 'msg_9'");
}

#[test]
fn item_limit_is_a_400() {
    let mut store = Files::default();
    let mut ids = ids();
    let empty = create_conversation(&mut ids, 5, None);
    let id = empty.id.clone();
    store.put_conversation(&id, &empty).expect("put");
    let two = items(r#"[{"role":"user","content":"a"},{"role":"user","content":"b"}]"#);
    let loaded = store.load_conversation(&id, 0, 6);
    let (record, created) = add_items(&mut ids, &id, two, loaded, 2).expect("added");
    let reply = items_added(created, store.put_conversation(&id, &record));
    assert_eq!(reply.status, 200);

    let one = items(r#"[{"role":"user","content":"c"}]"#);
    let loaded = store.load_conversation(&id, 0, 6);
    let reply = add_items(&mut ids, &id, one, loaded, 2).unwrap_err();
    assert_eq!(reply.status, 400);
    assert!(message(&reply).contains("limit"));
}

#[test]
fn conversation_bodies_are_read() {
    assert_eq!(parse_conversation_body(b" \n", Err("unused".to_string())), Ok(None));
    assert_eq!(parse_conversation_body(b"{}", Ok(())), Ok(None));
    assert_eq!(parse_conversation_body(br#"{"metadata":null}"#, Ok(())), Ok(None));
    assert_eq!(
        parse_conversation_body(br#"{"metadata":{"a":"b"}}"#, Ok(())),
        Ok(Some(json(r#"{"a":"b"}"#)))
    );
    assert_eq!(
        parse_conversation_body(br#"{"x":1}"#, Ok(())),
        Err((400, "invalid request body: unknown field `x`, expected `metadata`".to_string()))
    );
    assert_eq!(
        parse_conversation_body(b"{}", Err("duplicate field".to_string())),
        Err((400, "invalid request body: duplicate field".to_string()))
    );
    assert_eq!(parse_items_body(b"", Ok(())), Ok(Vec::new()));
    assert_eq!(parse_items_body(b"{}", Ok(())), Ok(Vec::new()));
    assert_eq!(parse_items_body(br#"{"items":[1,0.1]}"#, Ok(())), Ok(items("[1,0.1]")));
    assert_eq!(
        parse_items_body(br#"{"items":null}"#, Ok(())),
        Err((400, "invalid request body: invalid type: null, expected a sequence".to_string()))
    );
    assert!(parse_items_body(b"{", Ok(())).is_err());
}

#[test]
fn expired_conversation_is_not_found() {
    let mut store = Files::default();
    store.put_conversation("conv_1", &conversation()).expect("put");
    let loaded = store.load_conversation("conv_1", 1, 1_000_000);
    assert_eq!(get_conversation("conv_1", loaded).status, 404);
    assert_eq!(store.get_conversation("conv_1").expect("get"), None);
}

fn plan(text: &str) -> GenerationPlan {
    let request = decode_request(&json(text)).expect("request");
    let grammars = Grammars { tools: Err("none".to_string()), format: Ok("g".to_string()) };
    let prepared =
        validate_request(&request, "gemma3-4b", ResponsesApi::Openai, grammars).expect("valid");
    let settings = CreateSettings {
        model: "gemma3-4b".to_string(),
        profile: ResponsesApi::Openai,
        reasoning_trace: None,
        max_conversation_items: 0,
        max_stored_responses: 0,
    };
    match plan_generation(&settings, request, prepared, None, None) {
        Ok(plan) => plan,
        Err(reply) => panic!("{reply:?}"),
    }
}

fn run_job(text: &str, outcome: JobOutcome, cancelled: bool) -> Value {
    let job = BackgroundJob { id: "resp_1".to_string(), created_at: 1, plan: plan(text) };
    assert_eq!(value(&job.in_progress().response)["status"], "in_progress");
    value(&job.run(&mut ids(), outcome, cancelled).record.response)
}

fn said(text: &str) -> JobOutcome {
    let usage = TokenUsage { input_tokens: 3, output_tokens: 2, reasoning_tokens: 0 };
    JobOutcome::Generated(text.to_string(), usage)
}

const BACKGROUND: &str = r#"{"input":"hi","background":true}"#;

#[test]
fn job_reaches_completed() {
    let response = run_job(BACKGROUND, said("hello"), false);
    assert_eq!(response["status"], "completed");
    assert_eq!(response["output"][0]["content"][0]["text"], "hello");
    assert_eq!(response["usage"]["input_tokens"], 3);
}

#[test]
fn job_reaches_failed() {
    let failure = GenerationFailure { cause: None, message: "boom".to_string() };
    let response = run_job(BACKGROUND, JobOutcome::Failed(failure), false);
    assert_eq!(response["status"], "failed");
    assert_eq!(response["output"].as_array().map(Vec::len), Some(0));
    let json_only =
        r#"{"input":"hi","background":true,"text":{"format":{"type":"json_object"}}}"#;
    assert_eq!(run_job(json_only, said("no json"), false)["status"], "failed");
    assert_eq!(run_job(json_only, said("{}"), false)["status"], "completed");
}

#[test]
fn job_reaches_cancelled() {
    let failure =
        GenerationFailure { cause: Some(LLMError::Cancelled), message: "cancelled".to_string() };
    let response = run_job(BACKGROUND, JobOutcome::Failed(failure), true);
    assert_eq!(response["status"], "cancelled");
    assert_eq!(response["output"].as_array().map(Vec::len), Some(0));
    assert_eq!(run_job(BACKGROUND, said("late"), true)["status"], "cancelled");
}

fn queued_record() -> StoredResponse {
    StoredResponse {
        response: json(
            r#"{"id":"resp_1","object":"response","created_at":1,"status":"queued","model":"gemma3-4b","output":[],"usage":null}"#,
        ),
        input_items: Vec::new(),
    }
}

#[test]
fn cancel_sets_cancelled() {
    match cancel_response("resp_1", Ok(Some(queued_record()))) {
        Cancellation::Cancel(record, reply) => {
            assert_eq!(value(&record.response)["status"], "cancelled");
            assert_eq!(body(&reply)["status"], "cancelled");
        }
        Cancellation::Answer(reply) => panic!("{reply:?}"),
    }
}

#[test]
fn cancel_is_idempotent() {
    let stored = match cancel_response("resp_1", Ok(Some(queued_record()))) {
        Cancellation::Cancel(record, _) => record,
        Cancellation::Answer(reply) => panic!("{reply:?}"),
    };
    match cancel_response("resp_1", Ok(Some(stored.clone()))) {
        Cancellation::Answer(reply) => assert_eq!(body(&reply), value(&stored.response)),
        Cancellation::Cancel(..) => panic!("already cancelled"),
    }
}

#[test]
fn cancel_unknown_is_not_found() {
    match cancel_response("resp_missing", Ok(None)) {
        Cancellation::Answer(reply) => {
            assert_eq!(reply.status, 404);
            assert_eq!(message(&reply), "No response found with id 'resp_missing'");
        }
        Cancellation::Cancel(..) => panic!("nothing to cancel"),
    }
}

#[test]
fn the_registry_keeps_one_flag_for_each_registration() {
    let (registry, first) = CancelRegistry::new().register("a");
    let (registry, other) = registry.register("b");
    assert!(!registry.is_cancelled(first));
    let (registry, found) = registry.cancel("a");
    assert!(found);
    assert!(registry.is_cancelled(first));
    assert!(!registry.is_cancelled(other));
    let (registry, found) = registry.cancel("c");
    assert!(!found);
    // A job that is registered anew has a new flag, and the earlier handle keeps its own.
    let (registry, second) = registry.register("a");
    assert!(!registry.is_cancelled(second));
    assert!(registry.is_cancelled(first));
    let registry = registry.cancel("b").0.finish("b");
    assert!(registry.is_cancelled(other));
    let (registry, found) = registry.cancel("b");
    assert!(!found);
    assert!(registry.cancel("a").0.is_cancelled(second));
}

#[test]
fn range_rejects_a_non_number_and_a_boundary_violation() {
    assert!(number_in_range(&json("1.5"), "x", RangeEnd::Two).is_ok());
    assert!(number_in_range(&json(r#""1""#), "x", RangeEnd::Two).is_err());
    assert!(number_in_range(&json("-0.1"), "x", RangeEnd::Two).is_err());
    assert_eq!(
        number_in_range(&json(r#""1""#), "x", RangeEnd::Two).unwrap_err(),
        "`x` must be a number between 0 and 2"
    );
    assert_eq!(
        number_in_range(&json("3"), "x", RangeEnd::One).unwrap_err(),
        "`x` must be between 0 and 1"
    );
    for text in ["0", "1", "2", "0.5", "-0.0", "2.0"] {
        let (bits, number) = number_in_range(&json(text), "x", RangeEnd::Two).expect("in range");
        let expected: f64 = text.parse().expect("a number");
        assert_eq!(bits, expected.to_bits(), "{text}");
        assert_eq!(number.as_f64(), Some(expected));
        assert!(number.is_f64());
    }
}

#[test]
fn an_absent_control_is_the_pre_rd29_default() {
    let request = decode_request(&json(r#"{"input":"hi"}"#)).expect("request should parse");
    let effect = derive_generation(&request).expect("no control is valid");
    assert_eq!(f64::from_bits(effect.generation.temperature) as f32, 0.0);
    assert_eq!(f64::from_bits(effect.generation.top_p) as f32, 0.95);
    assert_eq!(effect.generation.max_output_tokens, None);
    assert_eq!(effect.echo, GenerationEcho::default());
    assert_eq!(DEFAULT_TOP_P, f64::from(0.95f32).to_bits());
}

fn reasoning(text: &str) -> Option<ResponseReasoning> {
    decode_reasoning(&json(text)).ok()
}

fn effect_of(reasoning: Option<&ResponseReasoning>) -> Result<ReasoningEffect, String> {
    derive_reasoning(reasoning, ResponsesApi::Openai)
}

#[test]
fn accepts_an_absent_object_and_an_empty_one() {
    assert_eq!(effect_of(None).expect("absent reasoning"), ReasoningEffect::default());
    let empty = reasoning("{}").expect("empty object parses");
    assert_eq!(
        effect_of(Some(&empty)).expect("empty reasoning"),
        ReasoningEffect { thinking: true, effort: None }
    );
}

#[test]
fn accepts_every_pinned_effort_value() {
    for effort in EFFORT_VALUES {
        let given = reasoning(&format!(r#"{{"effort":"{effort}"}}"#)).expect("effort parses");
        let effect = effect_of(Some(&given)).expect("effort is valid");
        assert_eq!(effect.effort.as_deref(), Some(effort));
        assert_eq!(effect.thinking, effort != "none", "effort {effort}");
        assert_eq!(effect.as_reasoning().effort, Some(effort));
    }
}

#[test]
fn rejects_an_unsupported_effort_value() {
    let given = reasoning(r#"{"effort":"enormous"}"#).expect("parses");
    let message = effect_of(Some(&given)).expect_err("unsupported effort");
    assert!(message.contains("reasoning.effort"), "{message}");
    assert!(message.contains("enormous"), "{message}");
}

#[test]
fn rejects_a_non_string_effort() {
    let given = reasoning(r#"{"effort":3}"#).expect("parses");
    let message = effect_of(Some(&given)).expect_err("non-string effort");
    assert!(message.contains("reasoning.effort"), "{message}");
}

#[test]
fn rejects_each_unimplemented_member() {
    for member in ["context", "generate_summary", "mode", "summary"] {
        let given = reasoning(&format!(r#"{{"{member}":"auto"}}"#)).expect("parses");
        let message = effect_of(Some(&given)).expect_err("unimplemented");
        assert!(message.contains(member), "{member}: {message}");
    }
}

#[test]
fn rejects_an_unknown_member() {
    assert!(reasoning(r#"{"temperature":0.5}"#).is_none());
}

#[test]
fn treats_null_members_as_absent() {
    let given = reasoning(r#"{"effort":null,"summary":null}"#).expect("null members parse");
    assert_eq!(
        effect_of(Some(&given)).expect("null is accepted"),
        ReasoningEffect { thinking: true, effort: None }
    );
}

#[test]
fn a_missing_text_object_is_plain_and_medium() {
    let effect = derive_text(None, Err("unused".to_string())).expect("accepted");
    assert!(!effect.format.json_required);
    assert_eq!(effect.verbosity, Verbosity::Medium);
    assert_eq!(Verbosity::Low.as_str(), "low");
    assert_eq!(Verbosity::Medium.directive(), None);
    assert!(Verbosity::High.directive().is_some());
    for verbosity in [Verbosity::Low, Verbosity::Medium, Verbosity::High] {
        assert_eq!(Verbosity::decode(&Json::text(verbosity.as_str())), Ok(verbosity));
    }
    assert!(Verbosity::decode(&json("3")).unwrap_err().contains("text.verbosity"));
}

#[test]
fn records_can_be_written_by_place() {
    let request = decode_request(&json(r#"{"input":[["user","hi"]]}"#)).expect("request");
    let (_, user) =
        ltengine::responses_input::map_input(None, &request.input).expect("prompt");
    assert_eq!(user, "hi");
    assert_eq!(
        decode_reasoning(&json(r#"[1,2,3,4,5,6]"#)).unwrap_err(),
        "invalid length 6, expected fewer elements in array"
    );
    assert_eq!(
        read_response(br#"[1]"#, Ok(())).unwrap_err(),
        "invalid length 1, expected struct StoredResponse with 2 elements"
    );
}

#[test]
fn a_fault_shows_the_value() {
    for (text, fault) in [
        (r#""a\"b\n""#, "invalid type: string \"a\\\"b\\n\", expected struct ResponseReasoning"),
        ("null", "invalid type: null, expected struct ResponseReasoning"),
        ("false", "invalid type: boolean `false`, expected struct ResponseReasoning"),
        ("-7", "invalid type: integer `-7`, expected struct ResponseReasoning"),
        ("2.5", "invalid type: floating point `2.5`, expected struct ResponseReasoning"),
    ] {
        assert_eq!(decode_reasoning(&json(text)).unwrap_err(), fault);
    }
}

#[test]
fn identifiers_of_one_source_differ() {
    let mut source = IdSource { nanos: 0xff, count: u64::MAX };
    assert_eq!(source.new_id("a_"), "a_ffffffffffffffffff");
    assert_eq!(source.new_id("a_"), "a_ff0");
    assert_eq!(source.new_id("a_"), "a_ff1");
    assert_eq!(source, IdSource { nanos: 0xff, count: 2 });
}

#[test]
fn json_text_reads_back() {
    let text = r#"{"a":[1,-2,1.5,true,null,"x\u0000€"],"b":{}}"#;
    let read = json(text);
    assert_eq!(json(&json_to_string(&read)), read);
    let written = ltengine::json_text::json_to_vec(&read).expect("bytes");
    assert_eq!(ltengine::json_text::json_from_slice(&written).expect("JSON"), read);
    assert!(json_from_str("{").is_err());
    assert!(ltengine::json_text::json_from_slice(&[0xff]).is_err());
}

#[test]
fn storage_limit_blocks_start() {
    let now: u64 = 1_000_000;
    let mut store = Files::default();
    store.put("resp_1", &timed("resp_1", now)).expect("put");
    let settings = CreateSettings {
        model: "gemma3-4b".to_string(),
        profile: ResponsesApi::Openai,
        reasoning_trace: None,
        max_conversation_items: 0,
        max_stored_responses: 1,
    };
    let room = store.prepare(0, settings.max_stored_responses, now);
    let (_, action) = create_response(
        &settings,
        &mut ids(),
        now,
        Creation::MakingRoom(plan(BACKGROUND)),
        CreationEvent::Room(Ok(room)),
    );
    match action {
        CreationAction::Answer(reply) => assert_eq!(reply.status, 507),
        other => panic!("expected an answer, got {other:?}"),
    }
}

#[test]
fn cancel_credential_and_query_guard() {
    assert_eq!(strict_guard("secret", None, "").expect("refused").status, 401);
    let reply = strict_guard("secret", Some("Bearer secret"), "force=1").expect("refused");
    assert_eq!(reply.status, 400);
}

#[test]
fn credential_and_query_guard() {
    assert_eq!(strict_guard("secret", None, "").expect("refused").status, 401);
    let reply = strict_guard("secret", Some("Bearer secret"), "limit=1").expect("refused");
    assert_eq!(reply.status, 400);
    assert!(message(&reply).contains("limit"));
}

#[test]
fn background_response_is_retrievable() {
    let mut store = Files::default();
    store.put("resp_1", &queued_record()).expect("put");
    let reply = get_response(PLAIN, "resp_1", store.get("resp_1"));
    assert_eq!(reply.status, 200);
    assert_eq!(body(&reply)["status"], "queued");
}
