use ltengine::json::{Json, JsonObject};
use ltengine::json_text::{json_from_str, json_to_string};
use ltengine::llm::{GenerationFailure, LLMError, TokenUsage};
use ltengine::responses::{
    decode_request, effective_prompt, grammar_schemas, ignored_fields, loaded_model_identifier,
    max_output_items,
    parse_and_authorize, validate_request, CreateRequest, Grammars, PreparedPrompt,
};
use ltengine::responses_create::{
    begin_creation, complete_response, create_response, plan_generation, require_json,
    resolve_previous, CreateSettings, Creation, CreationAction, CreationEvent, Generated,
};
use ltengine::responses_events::{
    build_stream_body_with_conversation, replay_stream_body, StreamOutput,
};
use ltengine::responses_http::{check_auth, ok_json, Reply, ReplyBody};
use ltengine::responses_input::{decode_input, map_input, ResponseInput};
use ltengine::responses_limits::Loaded;
use ltengine::responses_metadata::{
    METADATA_MAX_ENTRIES, METADATA_MAX_KEY_CHARS, METADATA_MAX_VALUE_CHARS,
};
use ltengine::responses_profile::{ReasoningTrace, ResponsesApi};
use ltengine::responses_shape::{
    build_response_with_conversation, calls_output, message_output, IdSource, ResponseControls,
};
use ltengine::responses_store::{ConversationRecord, StoredResponse};
use ltengine::responses_tools::{parse_turn, ModelCall, ModelTurn, ToolEcho};
use serde_json::Value;

fn json(text: &str) -> Json {
    json_from_str(text).expect("JSON")
}

fn value(json: &Json) -> Value {
    serde_json::from_str(&json_to_string(json)).expect("JSON")
}

fn plain(text: &str) -> Value {
    serde_json::from_str(text).expect("JSON")
}

fn ids() -> IdSource {
    IdSource { nanos: 0x18c0ffee, count: 0 }
}

fn usage(input_tokens: u32, output_tokens: u32) -> TokenUsage {
    TokenUsage { input_tokens, output_tokens, reasoning_tokens: 0 }
}

fn read(text: &str) -> Result<CreateRequest, String> {
    decode_request(&json(text))
}

fn parse(text: &str) -> CreateRequest {
    read(text).expect("request should parse")
}

/// A converter that knows no type `bogus-type`.
fn convert(schema: Option<String>) -> Result<String, String> {
    match schema {
        Some(text) if text.contains("bogus-type") => Err("unknown type".to_string()),
        Some(text) => Ok(format!("root ::= {text}")),
        None => Err("no schema".to_string()),
    }
}

fn grammars(request: &CreateRequest) -> Grammars {
    let schemas = grammar_schemas(request);
    Grammars { tools: convert(schemas.tools), format: convert(schemas.format) }
}

fn validate(request: &CreateRequest, model: &str) -> Result<PreparedPrompt, (u16, String)> {
    validate_request(request, model, ResponsesApi::Openai, grammars(request))
}

fn build_response(
    model: &str,
    output: Json,
    echo: &ToolEcho,
    metadata: Option<&Json>,
    usage: &TokenUsage,
    ids: &mut IdSource,
) -> Value {
    value(&build_response_with_conversation(
        ids,
        1,
        model,
        output,
        echo,
        metadata,
        None,
        &ResponseControls::default(),
        usage,
    ))
}

fn build_stream_body(
    output: StreamOutput<'_>,
    metadata: Option<&Json>,
    usage: &TokenUsage,
) -> (String, Json) {
    build_stream_body_with_conversation(
        &mut ids(),
        1,
        "gemma3-4b",
        output,
        None,
        &ToolEcho::text_only(),
        metadata,
        None,
        &ResponseControls::default(),
        usage,
    )
}

fn input(text: &str) -> ResponseInput {
    decode_input(&json(text)).expect("input")
}

fn error_message(reply: &Reply) -> String {
    match &reply.body {
        ReplyBody::Json(body) => {
            value(body)["error"]["message"].as_str().unwrap_or_default().to_string()
        }
        ReplyBody::Events(_) => panic!("an error has a JSON body"),
    }
}

#[test]
fn model_identity_uses_named_builtin_model() {
    assert_eq!(loaded_model_identifier("gemma3-1b", ""), "gemma3-1b");
}

#[test]
fn model_identity_uses_model_file_override() {
    let loaded = loaded_model_identifier("gemma3-4b", "/models/custom.gguf");
    assert_eq!(loaded, "/models/custom.gguf");
    let default_request = parse(r#"{"model":"gemma3-4b","input":"hi"}"#);
    assert!(validate(&default_request, &loaded).is_err());
    let override_request = parse(r#"{"model":"/models/custom.gguf","input":"hi"}"#);
    assert!(validate(&override_request, &loaded).is_ok());
}

#[test]
fn rejects_unknown_field_on_message_and_content_part() {
    assert!(read(r#"{"input":[{"role":"user","content":"hi","extra":1}]}"#).is_err());
    let part_request = parse(
        r#"{"input":[{"role":"user","content":[{"type":"input_text","text":"hi","extra":1}]}]}"#,
    );
    assert!(validate(&part_request, "gemma3-4b").is_err());
    assert!(read(r#"{"input":"hi"}"#).is_ok());
    assert!(read(r#"{"input":[{"role":"user","content":"hi"}]}"#).is_ok());
    assert!(read(
        r#"{"input":[{"role":"user","content":[{"type":"input_text","text":"hi"}]}]}"#
    )
    .is_ok());
}

#[test]
fn maps_text_input() {
    let (system, user) =
        map_input(Some("be terse"), &ResponseInput::Text("hi".to_string())).unwrap();
    assert_eq!(system, "be terse");
    assert_eq!(user, "hi");
}

#[test]
fn maps_message_array_with_standard_text_roles() {
    let input = input(
        r#"[{"role":"system","content":"be nice"},
            {"role":"user","content":"hi"},
            {"role":"assistant","content":[{"type":"output_text","text":"hello"}]},
            {"role":"user","content":"bye"}]"#,
    );
    let (system, user) = map_input(Some("extra"), &input).unwrap();
    assert_eq!(system, "extra\nbe nice");
    assert_eq!(user, "hi\nhello\nbye");
}

#[test]
fn rejects_unsupported_role_and_modality() {
    let bad_role = input(r#"[{"role":"tool","content":"x"}]"#);
    assert!(map_input(None, &bad_role).is_err());
    for text in [
        r#"[{"role":"user","content":[{"type":"input_image","image_url":"x"}]}]"#,
        r#"[{"role":"user","content":[{"type":"input_image","image_url":"x","detail":"high"}]}]"#,
        r#"[{"role":"user","content":[{"type":"input_file","file_id":"file-1","filename":"a.txt"}]}]"#,
        r#"[{"role":"user","content":[{"type":"input_audio","input_audio":{"data":"x","format":"wav"}}]}]"#,
    ] {
        let err = map_input(None, &input(text)).unwrap_err();
        assert!(err.contains("unsupported modality"), "{text} -> {err}");
    }
    for text in [
        r#"[{"role":"user","content":[{"type":"input_text","text":"hi","image_url":"x"}]}]"#,
        r#"[{"role":"user","content":[{"type":"input_text","text":"hi","bogus":1}]}]"#,
    ] {
        let err = map_input(None, &input(text)).unwrap_err();
        assert!(err.contains("unsupported modality field"), "{text} -> {err}");
    }
}

#[test]
fn body_api_key_is_400_before_the_auth_check() {
    for authorization in [None, Some("Bearer wrong"), Some("Bearer secret")] {
        let (status, message) = parse_and_authorize(
            br#"{"input":"hi","api_key":"secret"}"#,
            "secret",
            authorization,
            ResponsesApi::Openai,
        )
        .unwrap_err();
        assert_eq!(status, 400);
        assert!(message.contains("api_key"), "{message}");
    }
    let (status, message) =
        parse_and_authorize(br#"{"input":"hi"}"#, "secret", None, ResponsesApi::Openai)
            .unwrap_err();
    assert_eq!(status, 401);
    assert!(message.contains("bearer"), "{message}");
    assert!(parse_and_authorize(
        br#"{"input":"hi"}"#,
        "secret",
        Some("Bearer secret"),
        ResponsesApi::Openai
    )
    .is_ok());
}

#[test]
fn accepts_stream_true_and_selects_the_sse_body() {
    let request = parse(r#"{"model":"gemma3-4b","input":"hi","stream":true}"#);
    assert!(validate(&request, "gemma3-4b").is_ok());
    assert!(!build_stream_body(StreamOutput::Text("hi"), None, &usage(0, 0)).0.is_empty());
}

#[test]
fn rejects_model_mismatch() {
    let request = parse(r#"{"model":"gemma3-1b","input":"hi"}"#);
    let (status, message) = validate(&request, "gemma3-4b").unwrap_err();
    assert_eq!(status, 400);
    assert!(message.contains("model"));
    assert_eq!(message, "model `gemma3-1b` is not loaded; loaded model is `gemma3-4b`");

    let ok = parse(r#"{"model":"gemma3-4b","input":"hi","stream":false}"#);
    assert!(validate(&ok, "gemma3-4b").is_ok());
}

#[test]
fn accepts_absent_null_and_object_metadata() {
    assert_eq!(parse(r#"{"input":"hi"}"#).metadata, None);
    assert_eq!(parse(r#"{"input":"hi","metadata":null}"#).metadata, None);
    let request = parse(r#"{"input":"hi","metadata":{"a":"b"}}"#);
    assert_eq!(value(&request.metadata.unwrap())["a"], "b");
}

/// One `metadata` object with `count` entries, each inside the limits.
fn metadata_json(count: usize) -> String {
    let entries: Vec<String> = (0..count).map(|i| format!(r#""k{i}":"v""#)).collect();
    format!(r#"{{"input":"hi","metadata":{{{}}}}}"#, entries.join(","))
}

#[test]
fn metadata_boundaries_are_inclusive() {
    let key = "k".repeat(METADATA_MAX_KEY_CHARS);
    let text = "v".repeat(METADATA_MAX_VALUE_CHARS);
    assert!(read(&format!(r#"{{"input":"hi","metadata":{{"{key}":"{text}"}}}}"#)).is_ok());
    assert!(read(&metadata_json(METADATA_MAX_ENTRIES)).is_ok());
    // A limit counts characters, not bytes.
    let wide = "ü".repeat(METADATA_MAX_KEY_CHARS);
    assert!(read(&format!(r#"{{"input":"hi","metadata":{{"{wide}":"v"}}}}"#)).is_ok());
}

#[test]
fn rejects_invalid_metadata_naming_metadata() {
    let long_key = "k".repeat(METADATA_MAX_KEY_CHARS + 1);
    let long_value = "v".repeat(METADATA_MAX_VALUE_CHARS + 1);
    let cases = [
        r#"{"input":"hi","metadata":"x"}"#.to_string(),
        r#"{"input":"hi","metadata":5}"#.to_string(),
        r#"{"input":"hi","metadata":[]}"#.to_string(),
        r#"{"input":"hi","metadata":{"a":1}}"#.to_string(),
        r#"{"input":"hi","metadata":{"a":{"b":"c"}}}"#.to_string(),
        format!(r#"{{"input":"hi","metadata":{{"{long_key}":"v"}}}}"#),
        format!(r#"{{"input":"hi","metadata":{{"a":"{long_value}"}}}}"#),
        metadata_json(METADATA_MAX_ENTRIES + 1),
    ];
    for text in cases {
        let err = read(&text).expect_err("invalid metadata must fail");
        assert!(err.contains("metadata"), "{text} -> {err}");
    }
    let (status, message) = parse_and_authorize(
        br#"{"input":"hi","metadata":{"a":1}}"#,
        "",
        None,
        ResponsesApi::Openai,
    )
    .unwrap_err();
    assert_eq!(status, 400);
    assert!(message.contains("metadata"), "{message}");
    assert_eq!(
        read(&metadata_json(17)).unwrap_err(),
        "metadata must have at most 16 entries, got 17"
    );
}

#[test]
fn accepts_openai_tool_fields_without_a_tool_call() {
    for text in [
        r#"{"input":"hi","tools":[]}"#,
        r#"{"input":"hi","tool_choice":"none"}"#,
        r#"{"input":"hi","tool_choice":"auto"}"#,
        r#"{"input":"hi","parallel_tool_calls":false}"#,
        r#"{"input":"hi","parallel_tool_calls":true}"#,
        r#"{"input":"hi","tools":[],"tool_choice":"auto","parallel_tool_calls":true}"#,
    ] {
        assert!(validate(&parse(text), "gemma3-4b").is_ok(), "{text}");
    }
}

#[test]
fn rejects_a_tool_request_naming_the_field() {
    for (text, field) in [
        (r#"{"input":"hi","tools":[{"type":"web_search"}]}"#, "tools"),
        (r#"{"input":"hi","tools":[{"type":"function"}]}"#, "tools"),
        (r#"{"input":"hi","tools":[{"type":"function","name":"f"}]}"#, "tools"),
        (r#"{"input":"hi","tool_choice":"required"}"#, "tool_choice"),
        (r#"{"input":"hi","tool_choice":"bogus"}"#, "tool_choice"),
        (r#"{"input":"hi","tool_choice":{"type":"function","name":"f"}}"#, "tool_choice"),
    ] {
        let (status, message) = validate(&parse(text), "gemma3-4b").unwrap_err();
        assert_eq!(status, 400, "{text}");
        assert!(message.contains(field), "{text} -> {message}");
    }
}

#[test]
fn accepts_a_function_tool_and_echoes_the_request() {
    let request = parse(
        r#"{"input":"hi","tools":[{"type":"function","name":"get_weather","description":"w","parameters":{"type":"object","properties":{"location":{"type":"string"}},"required":["location"],"additionalProperties":false},"strict":true}],"tool_choice":"auto","parallel_tool_calls":true}"#,
    );
    let prepared = validate(&request, "gemma3-4b").expect("valid");
    assert!(prepared.tools.offers_tools());
    assert!(prepared.system.contains("get_weather"));
    let echo = ToolEcho::from_request(&prepared.tools);
    assert!(echo.parallel_tool_calls);
    assert_eq!(value(&echo.tool_choice), Value::from("auto"));
    assert_eq!(value(&echo.tools)[0]["name"], "get_weather");
    assert_eq!(value(&echo.tools)[0]["strict"], true);
}

#[test]
fn named_tool_choice_requires_a_declared_tool() {
    let request = parse(
        r#"{"input":"hi","tools":[{"type":"function","name":"a","parameters":{"type":"object"}}],"tool_choice":{"type":"function","name":"b"}}"#,
    );
    let (status, message) = validate(&request, "gemma3-4b").unwrap_err();
    assert_eq!(status, 400);
    assert!(message.contains("tool_choice"), "{message}");
}

#[test]
fn tools_and_structured_format_cannot_be_combined() {
    let request = parse(
        r#"{"input":"hi","tools":[{"type":"function","name":"a","parameters":{"type":"object"}}],"text":{"format":{"type":"json_object"}}}"#,
    );
    let (status, message) = validate(&request, "gemma3-4b").unwrap_err();
    assert_eq!(status, 400);
    assert!(message.contains("text.format"), "{message}");
}

#[test]
fn parse_turn_decodes_calls_and_messages() {
    let request = parse(
        r#"{"input":"hi","tools":[{"type":"function","name":"get_weather","parameters":{"type":"object","properties":{"location":{"type":"string"}},"required":["location"],"additionalProperties":false}}],"tool_choice":"auto"}"#,
    );
    let tools = validate(&request, "gemma3-4b").expect("valid").tools;
    let turn = parse_turn(
        r#"{"calls":[{"name":"get_weather","arguments":{"location":"Paris"}}]}"#,
        &tools,
    )
    .expect("turn");
    assert_eq!(
        turn,
        ModelTurn::Calls(vec![ModelCall {
            name: "get_weather".to_string(),
            arguments: r#"{"location":"Paris"}"#.to_string(),
        }])
    );
    assert_eq!(
        parse_turn(r#"{"message":"hi"}"#, &tools).expect("turn"),
        ModelTurn::Message("hi".to_string())
    );
    assert!(parse_turn(r#"{"calls":[{"name":"nope","arguments":{}}]}"#, &tools).is_err());
    for (text, message) in [
        (r#"{"calls":[]}"#, "the tool envelope `calls` must not be empty"),
        (r#"{"calls":1}"#, "the tool envelope `calls` must be an array"),
        (r#"{"calls":[{"arguments":{}}]}"#, "a tool call requires a string `name`"),
        (
            r#"{"calls":[{"name":"get_weather","arguments":"x"}]}"#,
            "tool call `get_weather` requires an object `arguments`",
        ),
        (r#"{"other":1}"#, "the model output is not the expected tool envelope"),
    ] {
        assert_eq!(parse_turn(text, &tools).unwrap_err(), message);
    }
    assert!(parse_turn("not json", &tools)
        .unwrap_err()
        .starts_with("the model did not produce the tool envelope: "));
    assert_eq!(
        parse_turn("\n {\"message\":\"hi\"} \n", &tools).expect("turn"),
        ModelTurn::Message("hi".to_string())
    );
}

#[test]
fn parse_turn_enforces_the_parallel_tool_call_limit() {
    let two = r#"[{"type":"function","name":"a","parameters":{"type":"object"}},{"type":"function","name":"b","parameters":{"type":"object"}}]"#;
    let parallel = validate(
        &parse(&format!(
            r#"{{"input":"hi","tools":{two},"tool_choice":"required","parallel_tool_calls":true}}"#
        )),
        "gemma3-4b",
    )
    .expect("valid")
    .tools;
    let calls = r#"{"calls":[{"name":"a","arguments":{}},{"name":"b","arguments":{}}]}"#;
    match parse_turn(calls, &parallel).expect("turn") {
        ModelTurn::Calls(calls) => assert_eq!(calls.len(), 2),
        other => panic!("expected calls, got {other:?}"),
    }
    assert_eq!(
        parse_turn(r#"{"message":"hi"}"#, &parallel).unwrap_err(),
        "`tool_choice` requires a tool call, but the model answered with text"
    );

    let serial = validate(
        &parse(&format!(
            r#"{{"input":"hi","tools":{two},"tool_choice":"required","parallel_tool_calls":false}}"#
        )),
        "gemma3-4b",
    )
    .expect("valid")
    .tools;
    assert!(parse_turn(calls, &serial).is_err());
    assert_eq!(
        parse_turn(calls, &serial).unwrap_err(),
        "the model returned 2 calls but `parallel_tool_calls` is false"
    );
    let named = validate(
        &parse(&format!(
            r#"{{"input":"hi","tools":{two},"tool_choice":{{"type":"function","name":"a"}}}}"#
        )),
        "gemma3-4b",
    )
    .expect("valid")
    .tools;
    assert_eq!(
        parse_turn(r#"{"calls":[{"name":"b","arguments":{}}]}"#, &named).unwrap_err(),
        "`tool_choice` requires `a` but the model named `b`"
    );
}

#[test]
fn falls_back_to_non_strict_when_the_schema_cannot_form_a_grammar() {
    let lenient = parse(
        r#"{"input":"hi","tools":[{"type":"function","name":"a","parameters":{"type":"bogus-type"}}]}"#,
    );
    let prepared = validate(&lenient, "gemma3-4b").expect("valid");
    assert!(prepared.tools.offers_tools());
    assert!(prepared.tools.grammar.is_none());
    assert_eq!(value(&ToolEcho::from_request(&prepared.tools).tools)[0]["strict"], false);

    let strict = parse(
        r#"{"input":"hi","tools":[{"type":"function","name":"a","parameters":{"type":"bogus-type"},"strict":true}]}"#,
    );
    let (status, message) = validate(&strict, "gemma3-4b").unwrap_err();
    assert_eq!(status, 400);
    assert!(message.contains("tools"), "{message}");
}

#[test]
fn calls_output_carries_the_function_call_fields() {
    let calls = vec![ModelCall { name: "f".to_string(), arguments: "{}".to_string() }];
    let output = value(&calls_output(&mut ids(), &calls));
    assert_eq!(output[0]["type"], "function_call");
    assert!(output[0]["id"].as_str().unwrap().starts_with("fc_"));
    assert!(output[0]["call_id"].as_str().unwrap().starts_with("call_"));
    assert_eq!(output[0]["name"], "f");
    assert_eq!(output[0]["arguments"], "{}");
    assert_eq!(output[0]["status"], "completed");
}

#[test]
fn maps_function_call_and_output_input_items() {
    let input = input(
        r#"[{"role":"user","content":"weather?"},
            {"type":"function_call","id":"fc_1","call_id":"call_1","name":"get_weather","arguments":"{\"location\":\"Paris\"}","status":"completed"},
            {"type":"function_call_output","call_id":"call_1","output":"sunny"}]"#,
    );
    let (system, user) = map_input(None, &input).unwrap();
    assert_eq!(system, "");
    assert!(user.contains("weather?"), "{user}");
    assert!(user.contains("get_weather"), "{user}");
    assert!(user.contains("sunny"), "{user}");
    assert_eq!(
        user,
        "weather?\nTool call `get_weather` (call_1) with arguments {\"location\":\"Paris\"}\nTool result for `call_1`: sunny"
    );
}

#[test]
fn rejects_other_unknown_fields() {
    assert!(read(r#"{"input":"hi","bogus":1}"#).is_err());
}

#[test]
fn ph8_01_temperature_range() {
    for text in [r#"{"input":"hi","temperature":0.0}"#, r#"{"input":"hi","temperature":2.0}"#] {
        assert!(validate(&parse(text), "gemma3-4b").is_ok(), "{text}");
    }
    for text in [
        r#"{"input":"hi","temperature":-0.1}"#,
        r#"{"input":"hi","temperature":2.1}"#,
        r#"{"input":"hi","temperature":"warm"}"#,
    ] {
        let (status, message) = validate(&parse(text), "gemma3-4b").unwrap_err();
        assert_eq!(status, 400, "{text}");
        assert!(message.contains("temperature"), "{text}: {message}");
    }
}

#[test]
fn ph8_02_top_p_range() {
    for text in [r#"{"input":"hi","top_p":0.0}"#, r#"{"input":"hi","top_p":1.0}"#] {
        assert!(validate(&parse(text), "gemma3-4b").is_ok(), "{text}");
    }
    for text in [
        r#"{"input":"hi","top_p":-0.1}"#,
        r#"{"input":"hi","top_p":1.1}"#,
        r#"{"input":"hi","top_p":"wide"}"#,
    ] {
        let (status, message) = validate(&parse(text), "gemma3-4b").unwrap_err();
        assert_eq!(status, 400, "{text}");
        assert!(message.contains("top_p"), "{text}: {message}");
    }
}

#[test]
fn ph8_03_max_output_tokens_range() {
    let request = parse(r#"{"input":"hi","max_output_tokens":1}"#);
    assert!(validate(&request, "gemma3-4b").is_ok());
    for text in [
        r#"{"input":"hi","max_output_tokens":0}"#,
        r#"{"input":"hi","max_output_tokens":-1}"#,
        r#"{"input":"hi","max_output_tokens":1.5}"#,
        r#"{"input":"hi","max_output_tokens":"ten"}"#,
        r#"{"input":"hi","max_output_tokens":2147483648}"#,
    ] {
        let (status, message) = validate(&parse(text), "gemma3-4b").unwrap_err();
        assert_eq!(status, 400, "{text}");
        assert!(message.contains("max_output_tokens"), "{text}: {message}");
    }
}

fn single(bits: u64) -> f32 {
    f64::from_bits(bits) as f32
}

#[test]
fn ph8_06_absent_controls_keep_defaults() {
    for text in [
        r#"{"input":"hi"}"#,
        r#"{"input":"hi","temperature":null,"top_p":null,"max_output_tokens":null}"#,
    ] {
        let prepared = validate(&parse(text), "gemma3-4b").expect("absent controls are valid");
        assert_eq!(single(prepared.generation.temperature), 0.0, "{text}");
        assert_eq!(single(prepared.generation.top_p), 0.95, "{text}");
        assert_eq!(prepared.generation.max_output_tokens, None, "{text}");
    }
}

#[test]
fn ph8_07_generation_controls_reach_the_sampler() {
    let request = parse(r#"{"input":"hi","temperature":0.7,"top_p":0.3}"#);
    let prepared = validate(&request, "gemma3-4b").expect("valid controls");
    assert_eq!(single(prepared.generation.temperature), 0.7);
    assert_eq!(single(prepared.generation.top_p), 0.3);
}

#[test]
fn ph8_08_generation_echo_follows_the_request() {
    let mut ids = ids();
    let carried = ResponseControls {
        temperature: serde_json::Number::from_f64(1.5),
        top_p: serde_json::Number::from_f64(0.25),
        max_output_tokens: Some(7),
        verbosity: None,
    };
    let output = message_output(&mut ids, "x");
    let body = value(&build_response_with_conversation(
        &mut ids,
        1,
        "gemma3-4b",
        output,
        &ToolEcho::text_only(),
        None,
        None,
        &carried,
        &usage(0, 0),
    ));
    assert_eq!(body["temperature"], 1.5);
    assert_eq!(body["top_p"], 0.25);
    assert_eq!(body["max_output_tokens"], 7);

    let output = message_output(&mut ids, "x");
    let absent = build_response(
        "gemma3-4b",
        output,
        &ToolEcho::text_only(),
        None,
        &usage(0, 0),
        &mut ids,
    );
    assert!(absent.get("temperature").is_none());
    assert!(absent.get("top_p").is_none());
    assert!(absent.get("max_output_tokens").is_none());
}

#[test]
fn ph8_09_verbosity_values() {
    for verbosity in ["low", "medium", "high"] {
        let text = format!(r#"{{"input":"hi","text":{{"verbosity":"{verbosity}"}}}}"#);
        assert!(validate(&parse(&text), "gemma3-4b").is_ok(), "{verbosity}");
    }
    for text in [
        r#"{"input":"hi","text":{"verbosity":"loud"}}"#,
        r#"{"input":"hi","text":{"verbosity":3}}"#,
    ] {
        let (status, message) = validate(&parse(text), "gemma3-4b").unwrap_err();
        assert_eq!(status, 400, "{text}");
        assert!(message.contains("text.verbosity"), "{text}: {message}");
    }
}

#[test]
fn ph8_10_verbosity_directive() {
    let low = parse(r#"{"input":"hi","text":{"verbosity":"low"}}"#);
    let system = validate(&low, "gemma3-4b").expect("low accepted").system;
    assert!(system.contains("Be concise."), "{system}");

    let high = parse(r#"{"input":"hi","text":{"verbosity":"high"}}"#);
    let system = validate(&high, "gemma3-4b").expect("high accepted").system;
    assert!(system.contains("Be thorough."), "{system}");

    for text in [
        r#"{"input":"hi"}"#,
        r#"{"input":"hi","text":{"verbosity":"medium"}}"#,
        r#"{"input":"hi","text":{"verbosity":null}}"#,
    ] {
        let system = validate(&parse(text), "gemma3-4b").expect("accepted").system;
        assert!(
            !system.contains("Be concise.") && !system.contains("Be thorough."),
            "{text}: {system}"
        );
    }
}

#[test]
fn ph8_11_absent_verbosity_keeps_the_prompt() {
    let request = parse(r#"{"input":"hi"}"#);
    let (expected, _) = map_input(None, &request.input).expect("input maps");
    let system = validate(&request, "gemma3-4b").expect("accepted").system;
    assert_eq!(system, expected);
}

#[test]
fn ph8_12_verbosity_echo_follows_the_request() {
    let mut ids = ids();
    let carried = ResponseControls { verbosity: Some("high"), ..ResponseControls::default() };
    let output = message_output(&mut ids, "x");
    let body = value(&build_response_with_conversation(
        &mut ids,
        1,
        "gemma3-4b",
        output,
        &ToolEcho::text_only(),
        None,
        None,
        &carried,
        &usage(0, 0),
    ));
    assert_eq!(body["text"]["verbosity"], "high");

    let output = message_output(&mut ids, "x");
    let absent = build_response(
        "gemma3-4b",
        output,
        &ToolEcho::text_only(),
        None,
        &usage(0, 0),
        &mut ids,
    );
    assert!(absent.get("text").is_none());
}

#[test]
fn derives_structured_format_for_json_object() {
    let request = parse(r#"{"input":"hi","text":{"format":{"type":"json_object"}}}"#);
    let prepared = validate(&request, "gemma3-4b").expect("valid");
    assert!(prepared.format.json_required);
    assert!(prepared.format.grammar.is_some());
    assert_eq!(grammar_schemas(&request).format.as_deref(), Some(r#"{"type":"object"}"#));
}

#[test]
fn derives_a_grammar_for_strict_json_schema() {
    let request = parse(
        r#"{"input":"hi","text":{"format":{"type":"json_schema","name":"answer","strict":true,"schema":{"type":"object","properties":{"answer":{"type":"string"}},"required":["answer"],"additionalProperties":false}}}}"#,
    );
    let prepared = validate(&request, "gemma3-4b").expect("valid");
    assert!(prepared.format.json_required);
    assert!(prepared.format.grammar.is_some());
}

#[test]
fn rejects_unknown_text_format_type_naming_the_field() {
    let request = parse(r#"{"input":"hi","text":{"format":{"type":"bogus"}}}"#);
    let (status, message) = validate(&request, "gemma3-4b").unwrap_err();
    assert_eq!(status, 400);
    assert!(message.contains("text.format.type"), "{message}");
}

#[test]
fn rejects_json_schema_without_schema_naming_the_field() {
    let request =
        parse(r#"{"input":"hi","text":{"format":{"type":"json_schema","name":"answer"}}}"#);
    let (status, message) = validate(&request, "gemma3-4b").unwrap_err();
    assert_eq!(status, 400);
    assert!(message.contains("text.format"), "{message}");
}

#[test]
fn rejects_an_unsupported_schema_naming_the_field() {
    let request = parse(
        r#"{"input":"hi","text":{"format":{"type":"json_schema","name":"answer","strict":true,"schema":{"type":"bogus-type"}}}}"#,
    );
    let (status, message) = validate(&request, "gemma3-4b").unwrap_err();
    assert_eq!(status, 400);
    assert!(message.contains("text.format.schema"), "{message}");
}

#[test]
fn accepts_text_verbosity_naming_the_field() {
    let accepted = parse(r#"{"input":"hi","text":{"verbosity":"low"}}"#);
    assert!(validate(&accepted, "gemma3-4b").is_ok());
    let rejected = parse(r#"{"input":"hi","text":{"verbosity":"loud"}}"#);
    let (status, message) = validate(&rejected, "gemma3-4b").unwrap_err();
    assert_eq!(status, 400);
    assert!(message.contains("text.verbosity"), "{message}");
}

#[test]
fn rejects_json_text_that_does_not_parse() {
    assert!(require_json("not json").is_err());
    assert!(require_json(r#"{"a":1}"#).is_ok());
}

#[test]
fn requires_bearer_only_when_key_configured() {
    assert!(check_auth("", None).is_ok());
    assert!(check_auth("secret", Some("Bearer secret")).is_ok());
    assert!(check_auth("secret", Some("Bearer wrong")).is_err());
    assert!(check_auth("secret", None).is_err());
    assert!(parse_and_authorize(
        br#"{"input":"hi","api_key":"secret"}"#,
        "",
        None,
        ResponsesApi::Openai
    )
    .is_err());
}

#[test]
fn response_shape_has_message_output_and_usage() {
    let mut ids = ids();
    let output = message_output(&mut ids, "hello");
    let body = build_response(
        "gemma3-4b",
        output,
        &ToolEcho::text_only(),
        None,
        &usage(7, 3),
        &mut ids,
    );
    assert_eq!(body["object"], "response");
    assert_eq!(body["status"], "completed");
    assert_eq!(body["model"], "gemma3-4b");
    assert_eq!(body["output"][0]["type"], "message");
    assert_eq!(body["output"][0]["content"][0]["type"], "output_text");
    assert_eq!(body["output"][0]["content"][0]["text"], "hello");
    assert!(body["id"].as_str().unwrap().starts_with("resp_"));
    assert_eq!(body["usage"]["input_tokens"], 7);
    assert_eq!(body["usage"]["output_tokens"], 3);
    assert_eq!(body["usage"]["total_tokens"], 10);
    assert_eq!(body["parallel_tool_calls"], false);
    assert_eq!(body["tool_choice"], "none");
    assert_eq!(body["tools"].as_array().map(Vec::len), Some(0));
}

/// The JSON payloads of an event stream. The type of each equals its event line.
fn parse_sse(body: &str) -> Vec<Value> {
    body.split("\n\n")
        .filter(|frame| !frame.trim().is_empty())
        .map(|frame| {
            let name = frame
                .lines()
                .find_map(|line| line.strip_prefix("event: "))
                .expect("frame has an event line");
            let data = frame
                .lines()
                .find_map(|line| line.strip_prefix("data: "))
                .expect("frame has a data line");
            let payload: Value = serde_json::from_str(data).expect("payload is JSON");
            assert_eq!(payload["type"], name, "payload type matches the event name");
            payload
        })
        .collect()
}

#[test]
fn stream_body_follows_the_rd17_order_with_increasing_sequence_numbers() {
    let (body, _) = build_stream_body(StreamOutput::Text("hello"), None, &usage(4, 2));
    let events = parse_sse(&body);
    let types: Vec<&str> = events.iter().map(|event| event["type"].as_str().unwrap()).collect();
    assert_eq!(
        types,
        [
            "response.created",
            "response.in_progress",
            "response.output_item.added",
            "response.content_part.added",
            "response.output_text.delta",
            "response.output_text.done",
            "response.content_part.done",
            "response.output_item.done",
            "response.completed",
        ]
    );
    for (index, event) in events.iter().enumerate() {
        assert_eq!(event["sequence_number"], index);
    }
    let item_id = events[4]["item_id"].as_str().unwrap();
    assert_eq!(events[4]["delta"], "hello");
    assert_eq!(events[5]["text"], "hello");
    assert_eq!(events[6]["part"]["text"], "hello");
    assert_eq!(events[7]["item"]["id"], item_id);
    assert_eq!(events[3]["part"]["type"], "output_text");
    assert_eq!(events[2]["item"]["status"], "in_progress");
    assert_eq!(events[8]["response"]["status"], "completed");
    assert_eq!(events[8]["response"]["model"], "gemma3-4b");
    assert_eq!(events[8]["response"]["output"][0]["id"], item_id);
    assert_eq!(events[8]["response"]["usage"]["input_tokens"], 4);
    assert_eq!(events[8]["response"]["usage"]["output_tokens"], 2);
    assert_eq!(events[8]["response"]["usage"]["total_tokens"], 6);
    assert!(!types.contains(&"response.failed"));
    assert!(!types.contains(&"response.incomplete"));
}

#[test]
fn stream_body_sets_the_content_type_and_echoes_metadata() {
    let metadata = json(r#"{"a":"b"}"#);
    let (body, _) = build_stream_body(StreamOutput::Text("x"), Some(&metadata), &usage(1, 1));
    let events = parse_sse(&body);
    assert_eq!(events[0]["response"]["metadata"], plain(r#"{"a":"b"}"#));
    assert_eq!(events[8]["response"]["metadata"], plain(r#"{"a":"b"}"#));
    assert_eq!(events[0]["response"]["status"], "in_progress");
    assert!(events[0]["response"]["usage"].is_null());
    assert_eq!(events[0]["response"]["id"], events[8]["response"]["id"]);
}

#[test]
fn response_echoes_metadata_or_null() {
    let mut ids = ids();
    let metadata = json(r#"{"a":"b"}"#);
    let output = message_output(&mut ids, "x");
    let echoed = build_response(
        "gemma3-4b",
        output,
        &ToolEcho::text_only(),
        Some(&metadata),
        &usage(0, 0),
        &mut ids,
    );
    assert_eq!(echoed["metadata"], plain(r#"{"a":"b"}"#));
    let output = message_output(&mut ids, "x");
    let absent = build_response(
        "gemma3-4b",
        output,
        &ToolEcho::text_only(),
        None,
        &usage(0, 0),
        &mut ids,
    );
    assert!(absent["metadata"].is_null());
}

#[test]
fn response_ids_are_unique_and_prefixed() {
    let mut ids = ids();
    let output = message_output(&mut ids, "a");
    let first = build_response(
        "gemma3-4b",
        output,
        &ToolEcho::text_only(),
        None,
        &usage(0, 0),
        &mut ids,
    );
    let output = message_output(&mut ids, "b");
    let second = build_response(
        "gemma3-4b",
        output,
        &ToolEcho::text_only(),
        None,
        &usage(0, 0),
        &mut ids,
    );
    let first_id = first["id"].as_str().unwrap();
    let second_id = second["id"].as_str().unwrap();
    assert!(first_id.starts_with("resp_"));
    assert!(second_id.starts_with("resp_"));
    assert_ne!(first_id, second_id);
    assert_eq!(first_id, "resp_18c0ffee1");
}

fn items(text: &str) -> Vec<Json> {
    match json(text) {
        Json::Array(items) => items,
        _ => panic!("a list"),
    }
}

#[test]
fn previous_response_id_prepends_context() {
    let previous = StoredResponse {
        response: json(
            r#"{"id":"resp_prev","output":[{"type":"message","role":"assistant","content":[{"type":"output_text","text":"hello"}]}]}"#,
        ),
        input_items: items(r#"[{"role":"user","content":"first"}]"#),
    };
    let request = parse(
        r#"{"input":"second","instructions":"new system","previous_response_id":"resp_prev"}"#,
    );
    let prepared = validate(&request, "gemma3-4b").expect("valid");
    let prompt = effective_prompt(&request, &prepared, Some(&previous), None).expect("prompt");
    assert_eq!(prompt.system, "new system");
    assert_eq!(prompt.user, "first\nhello\nsecond");
    assert_eq!(prompt.input_items.len(), 3);
    assert_eq!(value(&prompt.input_items[0])["content"], "first");
    assert_eq!(value(&prompt.input_items[1])["content"][0]["text"], "hello");
    assert_eq!(value(&prompt.input_items[2])["content"][0]["text"], "second");
}

#[test]
fn previous_response_id_is_transitive() {
    let previous = StoredResponse {
        response: json(r#"{"id":"resp_2","output":[]}"#),
        input_items: items(
            r#"[{"role":"user","content":"one"},{"role":"assistant","content":"two"}]"#,
        ),
    };
    let request = parse(r#"{"input":"three","previous_response_id":"resp_2"}"#);
    let prepared = validate(&request, "gemma3-4b").expect("valid");
    let prompt = effective_prompt(&request, &prepared, Some(&previous), None).expect("prompt");
    assert_eq!(prompt.user, "one\ntwo\nthree");
}

#[test]
fn previous_response_id_absent_reuses_the_plain_prompt() {
    let request = parse(r#"{"input":"hi","instructions":"be terse"}"#);
    let prepared = validate(&request, "gemma3-4b").expect("valid");
    let prompt = effective_prompt(&request, &prepared, None, None).expect("prompt");
    assert_eq!(prompt.system, prepared.system);
    assert_eq!(prompt.user, prepared.user);
    assert_eq!(prompt.input_items.len(), 1);
}

#[test]
fn unknown_previous_response_id_is_not_found() {
    let reply = resolve_previous(Some("resp_missing"), Ok(Loaded::Missing)).expect_err("must 404");
    assert_eq!(reply.status, 404);
    assert_eq!(error_message(&reply), "No response found with id 'resp_missing'");

    let record =
        StoredResponse { response: json(r#"{"id":"resp_1"}"#), input_items: Vec::new() };
    assert_eq!(
        resolve_previous(Some("resp_1"), Ok(Loaded::Live(record.clone()))).expect("resolved"),
        Some(record)
    );
    assert_eq!(resolve_previous(None, Ok(Loaded::Missing)).expect("none"), None);
    let reply = resolve_previous(Some("resp_1"), Err("gone".to_string())).expect_err("must fail");
    assert_eq!(reply.status, 500);
    assert_eq!(error_message(&reply), "failed to read the response store: gone");
}

fn settings() -> CreateSettings {
    CreateSettings {
        model: "gemma3-4b".to_string(),
        profile: ResponsesApi::Openai,
        reasoning_trace: None,
        max_conversation_items: 0,
        max_stored_responses: 0,
    }
}

#[test]
fn failed_store_write_is_a_500() {
    let state = Creation::StoringResponse(ok_json(json("{}")), None);
    let (_, action) = create_response(
        &settings(),
        &mut ids(),
        1,
        state,
        CreationEvent::ResponseStored(Err("store unavailable".to_string())),
    );
    match action {
        CreationAction::Answer(reply) => {
            assert_eq!(reply.status, 500);
            assert!(error_message(&reply).contains("store"));
        }
        other => panic!("expected an answer, got {other:?}"),
    }
}

#[test]
fn store_flag_controls_persistence() {
    for (text, stored) in
        [(r#"{"input":"hi"}"#, true), (r#"{"input":"hi","store":false}"#, false)]
    {
        let request = parse(text);
        let prepared = validate(&request, "gemma3-4b").expect("valid");
        let plan =
            plan_generation(&settings(), request, prepared, None, None).expect("a plan");
        let done = complete_response(
            plan,
            &mut ids(),
            1,
            ModelTurn::Message("x".to_string()),
            "",
            &usage(1, 1),
        );
        assert_eq!(done.record.is_some(), stored, "{text}");
        if let Some((id, record)) = done.record {
            assert_eq!(value(&record.response)["id"], id);
        }
    }
}

#[test]
fn replay_matches_the_create_stream() {
    let (body, completed) = build_stream_body(StreamOutput::Text("hello"), None, &usage(4, 2));
    let replay = replay_stream_body(&completed, None).expect("replay");
    assert_eq!(parse_sse(&replay), parse_sse(&body));

    let calls = vec![ModelCall { name: "f".to_string(), arguments: "{}".to_string() }];
    let (call_body, call_completed) =
        build_stream_body(StreamOutput::Calls(&calls), None, &usage(4, 2));
    let replay = replay_stream_body(&call_completed, None).expect("replay");
    assert_eq!(parse_sse(&replay), parse_sse(&call_body));
}

#[test]
fn replay_starting_after_filters() {
    let (_, completed) = build_stream_body(StreamOutput::Text("hello"), None, &usage(0, 0));
    let full = parse_sse(&replay_stream_body(&completed, None).expect("replay"));
    let tail = parse_sse(&replay_stream_body(&completed, Some(4)).expect("replay"));
    assert_eq!(tail, full[5..]);
    assert_eq!(tail[0]["sequence_number"], 5);
    assert_eq!(replay_stream_body(&completed, Some(8)).expect("replay"), "");
}

#[test]
fn replay_of_a_non_stream_response() {
    let mut ids = ids();
    let output = message_output(&mut ids, "hello");
    let completed = build_response_with_conversation(
        &mut ids,
        1,
        "gemma3-4b",
        output,
        &ToolEcho::text_only(),
        None,
        None,
        &ResponseControls::default(),
        &usage(0, 0),
    );
    let events = parse_sse(&replay_stream_body(&completed, None).expect("replay"));
    assert_eq!(events.len(), 9);
    assert_eq!(events[8]["response"], value(&completed));
}

#[test]
fn replay_is_deterministic() {
    let (_, completed) = build_stream_body(StreamOutput::Text("hello"), None, &usage(0, 0));
    let before = completed.clone();
    let first = replay_stream_body(&completed, None).expect("replay");
    let second = replay_stream_body(&completed, None).expect("replay");
    assert_eq!(first, second);
    assert_eq!(completed, before);
}

#[test]
fn conversation_prepends_and_appends() {
    let conversation = ConversationRecord {
        id: "conv_1".to_string(),
        created_at: 1,
        metadata: Json::Null,
        items: items(
            r#"[{"id":"msg_1","role":"user","content":"first"},{"id":"msg_2","role":"assistant","content":[{"type":"output_text","text":"hello","annotations":[]}]}]"#,
        ),
    };
    let request = parse(r#"{"input":"second","instructions":"sys","conversation":"conv_1"}"#);
    let prepared = validate(&request, "gemma3-4b").expect("valid");
    let prompt = effective_prompt(&request, &prepared, None, Some(&conversation)).expect("prompt");
    assert_eq!(prompt.system, "sys");
    assert_eq!(prompt.user, "first\nhello\nsecond");
    assert_eq!(prompt.input_items.len(), 1);
    assert_eq!(value(&prompt.input_items[0])["content"][0]["text"], "second");
}

#[test]
fn conversation_with_previous_response_id_is_a_400() {
    let request =
        parse(r#"{"input":"hi","conversation":"conv_1","previous_response_id":"resp_1"}"#);
    let (status, message) = validate(&request, "gemma3-4b").unwrap_err();
    assert_eq!(status, 400);
    assert!(message.contains("conversation"), "{message}");
}

#[test]
fn conversation_limit_is_checked_before_generation() {
    let tools = validate(
        &parse(
            r#"{"input":"hi","tools":[{"type":"function","name":"a","parameters":{"type":"object"}},{"type":"function","name":"b","parameters":{"type":"object"}}],"tool_choice":"auto","parallel_tool_calls":true}"#,
        ),
        "gemma3-4b",
    )
    .expect("valid")
    .tools;
    assert_eq!(max_output_items(&tools), 2);
    let text_only =
        validate(&parse(r#"{"input":"hi"}"#), "gemma3-4b").expect("valid").tools;
    assert_eq!(max_output_items(&text_only), 1);
}

#[test]
fn background_requires_store() {
    let request = parse(r#"{"input":"hi","background":true,"store":false}"#);
    let (status, message) = validate(&request, "gemma3-4b").unwrap_err();
    assert_eq!(status, 400);
    assert!(message.contains("background"), "{message}");
}

#[test]
fn background_rejects_stream() {
    let request = parse(r#"{"input":"hi","background":true,"stream":true}"#);
    let (status, message) = validate(&request, "gemma3-4b").unwrap_err();
    assert_eq!(status, 400);
    assert!(message.contains("background"), "{message}");
}

/// Runs a creation to its end. The conversation is the one the store has; every
/// write succeeds.
fn run_creation(
    settings: &CreateSettings,
    body: &str,
    conversation: Option<ConversationRecord>,
    outcome: Result<Generated, GenerationFailure>,
) -> (Vec<String>, Reply) {
    let mut ids = ids();
    let mut log: Vec<String> = Vec::new();
    let mut outcome = Some(outcome);
    let (mut state, mut action) =
        begin_creation(Ok(body.as_bytes().to_vec()), "", None, settings.profile);
    loop {
        let event = match action {
            CreationAction::MakeGrammars(schemas) => CreationEvent::Grammars(Grammars {
                tools: convert(schemas.tools),
                format: convert(schemas.format),
            }),
            CreationAction::ReadResponse(id) => {
                log.push(format!("read {id}"));
                CreationEvent::Previous(Ok(Loaded::Missing))
            }
            CreationAction::ReadConversation(id) => {
                log.push(format!("read {id}"));
                CreationEvent::Conversation(Ok(match conversation.clone() {
                    Some(record) => Loaded::Live(record),
                    None => Loaded::Missing,
                }))
            }
            CreationAction::MakeRoom => {
                log.push("room".to_string());
                CreationEvent::Room(Ok(true))
            }
            CreationAction::Generate => {
                log.push("generate".to_string());
                CreationEvent::Generation(outcome.take().expect("one generation"))
            }
            CreationAction::StoreResponse(id, record) => {
                log.push(format!("store {id} {}", value(&record.response)["status"]));
                CreationEvent::ResponseStored(Ok(()))
            }
            CreationAction::StoreConversation(id, record) => {
                log.push(format!("store {id} {}", record.items.len()));
                CreationEvent::ConversationStored(Ok(()))
            }
            CreationAction::StartJob(job, reply) => {
                log.push(format!("start {}", job.id));
                return (log, reply);
            }
            CreationAction::Answer(reply) => return (log, reply),
        };
        let (next, then) = create_response(settings, &mut ids, 7, state, event);
        state = next;
        action = then;
    }
}

fn generated(text: &str, trace: &str) -> Result<Generated, GenerationFailure> {
    Ok(Generated { text: text.to_string(), trace: trace.to_string(), usage: usage(4, 2) })
}

fn reply_json(reply: &Reply) -> Value {
    match &reply.body {
        ReplyBody::Json(body) => value(body),
        ReplyBody::Events(_) => panic!("a JSON body"),
    }
}

#[test]
fn a_creation_stores_what_it_answers() {
    let (log, reply) =
        run_creation(&settings(), r#"{"input":"hi"}"#, None, generated("hello", ""));
    assert_eq!(log, ["room", "generate", "store resp_18c0ffee1 \"completed\""]);
    assert_eq!(reply.status, 200);
    let body = reply_json(&reply);
    assert_eq!(body["id"], "resp_18c0ffee1");
    assert_eq!(body["created_at"], 7);
    assert_eq!(body["output"][0]["content"][0]["text"], "hello");
    assert_eq!(body["usage"]["total_tokens"], 6);
}

#[test]
fn a_creation_without_store_writes_nothing() {
    let (log, reply) = run_creation(
        &settings(),
        r#"{"input":"hi","store":false}"#,
        None,
        generated("hello", ""),
    );
    assert_eq!(log, ["generate"]);
    assert_eq!(reply.status, 200);
}

#[test]
fn a_refused_creation_never_generates() {
    for (body, status) in [
        ("{", 400),
        ("[]", 400),
        (r#"{"input":"hi","bogus":1}"#, 400),
        (r#"{"input":"hi","model":"other"}"#, 400),
        (r#"{"input":"hi","previous_response_id":"resp_1"}"#, 404),
        (r#"{"input":"hi","conversation":"conv_1"}"#, 404),
        (r#"{"input":[{"role":"tool","content":"x"}]}"#, 400),
    ] {
        let (log, reply) = run_creation(&settings(), body, None, generated("x", ""));
        assert_eq!(reply.status, status, "{body}");
        assert!(!log.contains(&"generate".to_string()), "{body}");
        assert!(!error_message(&reply).is_empty(), "{body}");
    }
}

#[test]
fn a_conversation_grows_by_the_turn() {
    let conversation = ConversationRecord {
        id: "conv_1".to_string(),
        created_at: 1,
        metadata: Json::Null,
        items: items(r#"[{"id":"msg_1","role":"user","content":"first"}]"#),
    };
    let body = r#"{"input":"second","conversation":"conv_1"}"#;
    let (log, reply) =
        run_creation(&settings(), body, Some(conversation.clone()), generated("hello", ""));
    assert_eq!(
        log,
        ["read conv_1", "room", "generate", "store resp_18c0ffee1 \"completed\"", "store conv_1 3"]
    );
    assert_eq!(reply_json(&reply)["conversation"]["id"], "conv_1");

    let narrow = CreateSettings { max_conversation_items: 2, ..settings() };
    let (log, reply) =
        run_creation(&narrow, body, Some(conversation), generated("hello", ""));
    assert_eq!(log, ["read conv_1"]);
    assert_eq!(reply.status, 400);
    assert_eq!(error_message(&reply), "the conversation item limit of 2 would be exceeded");
}

#[test]
fn a_background_creation_queues_and_starts_a_job() {
    let (log, reply) = run_creation(
        &settings(),
        r#"{"input":"hi","background":true}"#,
        None,
        generated("hello", ""),
    );
    assert_eq!(log, ["room", "store resp_18c0ffee0 \"queued\"", "start resp_18c0ffee0"]);
    assert_eq!(reply_json(&reply)["status"], "queued");
    assert!(reply_json(&reply)["usage"].is_null());
}

#[test]
fn a_trace_is_shown_only_verbatim() {
    let verbatim =
        CreateSettings { reasoning_trace: Some(ReasoningTrace::Verbatim), ..settings() };
    let (_, reply) =
        run_creation(&verbatim, r#"{"input":"hi"}"#, None, generated("hello", "because"));
    let output = reply_json(&reply)["output"].clone();
    assert_eq!(output[0]["type"], "reasoning");
    assert_eq!(output[0]["content"][0]["type"], "reasoning_text");
    assert_eq!(output[0]["content"][0]["text"], "because");
    assert!(output[0]["encrypted_content"].is_null());
    assert_eq!(output[1]["type"], "message");

    let (_, reply) =
        run_creation(&settings(), r#"{"input":"hi"}"#, None, generated("hello", "because"));
    assert_eq!(reply_json(&reply)["output"].as_array().map(Vec::len), Some(1));
}

#[test]
fn a_streamed_creation_answers_with_events() {
    let verbatim =
        CreateSettings { reasoning_trace: Some(ReasoningTrace::Verbatim), ..settings() };
    let (log, reply) = run_creation(
        &verbatim,
        r#"{"input":"hi","stream":true}"#,
        None,
        generated("hello", "because"),
    );
    assert_eq!(log, ["room", "generate", "store resp_18c0ffee1 \"completed\""]);
    match &reply.body {
        ReplyBody::Events(body) => {
            let events = parse_sse(body);
            let types: Vec<&str> =
                events.iter().map(|event| event["type"].as_str().unwrap()).collect();
            assert_eq!(
                types[2..6],
                [
                    "response.output_item.added",
                    "response.reasoning_text.delta",
                    "response.reasoning_text.done",
                    "response.output_item.done",
                ]
            );
            assert_eq!(events.len(), 13);
        }
        ReplyBody::Json(_) => panic!("an event stream"),
    }
}

#[test]
fn a_failed_generation_has_its_status() {
    let failures = [
        (Some(LLMError::Busy), 503, "Server busy, please try again later"),
        (Some(LLMError::Cancelled), 500, "Generation was cancelled"),
        (None, 500, "boom"),
    ];
    for (cause, status, message) in failures {
        let failure = GenerationFailure { cause, message: message.to_string() };
        let (_, reply) = run_creation(&settings(), r#"{"input":"hi"}"#, None, Err(failure));
        assert_eq!(reply.status, status);
        assert_eq!(error_message(&reply), message);
    }
    let failure = GenerationFailure {
        cause: Some(LLMError::OutputTokensExceedContext("too long".to_string())),
        message: "outer: too long".to_string(),
    };
    let (_, reply) = run_creation(&settings(), r#"{"input":"hi"}"#, None, Err(failure));
    assert_eq!(reply.status, 400);
    assert_eq!(error_message(&reply), "too long");
}

#[test]
fn a_required_json_output_is_checked() {
    let body = r#"{"input":"hi","text":{"format":{"type":"json_object"}}}"#;
    let (_, reply) = run_creation(&settings(), body, None, generated("no json", ""));
    assert_eq!(reply.status, 500);
    assert!(error_message(&reply)
        .starts_with("the model did not produce valid JSON for `text.format`: "));
    let (_, reply) = run_creation(&settings(), body, None, generated("{\"a\":1}", ""));
    assert_eq!(reply.status, 200);
}

#[test]
fn a_full_store_refuses_a_response() {
    let (state, _) = create_response(
        &settings(),
        &mut ids(),
        1,
        Creation::Preparing(parse(r#"{"input":"hi"}"#)),
        CreationEvent::Grammars(Grammars {
            tools: Err(String::new()),
            format: Err(String::new()),
        }),
    );
    let limited = CreateSettings { max_stored_responses: 3, ..settings() };
    let (_, action) =
        create_response(&limited, &mut ids(), 1, state, CreationEvent::Room(Ok(false)));
    match action {
        CreationAction::Answer(reply) => {
            assert_eq!(reply.status, 507);
            assert_eq!(error_message(&reply), "the response storage limit of 3 is reached");
        }
        other => panic!("expected an answer, got {other:?}"),
    }
}

#[test]
fn an_unexpected_event_ends_the_creation() {
    let (_, action) = create_response(
        &settings(),
        &mut ids(),
        1,
        Creation::Finished,
        CreationEvent::Room(Ok(true)),
    );
    assert!(matches!(action, CreationAction::Answer(reply) if reply.status == 500));
}

#[test]
fn the_deepseek_profile_drops_unknown_fields() {
    let body = br#"{"input":"hi","bogus":1,"also":2}"#;
    let (status, message) =
        parse_and_authorize(body, "", None, ResponsesApi::Openai).unwrap_err();
    assert_eq!(status, 400);
    assert_eq!(message, "unknown field `also`");
    assert!(parse_and_authorize(body, "", None, ResponsesApi::Deepseek).is_ok());
    let sent = json(r#"{"input":"hi","bogus":1,"also":2}"#);
    assert_eq!(ignored_fields(&sent, ResponsesApi::Deepseek), ["also", "bogus"]);
    assert!(ignored_fields(&sent, ResponsesApi::Openai).is_empty());
    assert!(ignored_fields(&json("[]"), ResponsesApi::Deepseek).is_empty());
}

#[test]
fn faults_of_a_request_are_named() {
    for (text, message) in [
        (r#"{}"#, "missing field `input`"),
        (r#"{"input":5}"#, "data did not match any variant of untagged enum ResponseInput"),
        (r#"{"input":"hi","model":5}"#, "invalid type: integer `5`, expected a string"),
        (r#"{"input":"hi","stream":"yes"}"#, "invalid type: string \"yes\", expected a boolean"),
        (r#"{"input":"hi","stream":1.5}"#, "invalid type: floating point `1.5`, expected a boolean"),
        (r#"{"input":"hi","tools":{}}"#, "invalid type: map, expected a sequence"),
        (
            r#"{"input":"hi","text":{"format":{"type":"text","x":1}}}"#,
            "unknown field `x`, expected one of `type`, `name`, `description`, `schema`, `strict`",
        ),
        (r#"{"input":"hi","reasoning":3}"#, "invalid type: integer `3`, expected struct ResponseReasoning"),
    ] {
        assert_eq!(read(text).unwrap_err(), message, "{text}");
    }
}

#[test]
fn a_stored_input_gives_the_same_prompt() {
    let text = r#"[{"role":"system","content":"s"},
        {"role":"user","content":[{"type":"input_text","text":"u"}]},
        {"type":"function_call","call_id":"c","name":"n"},
        {"type":"function_call_output","call_id":"c","output":{"a":1}},
        {"type":"reasoning","content":[{"type":"reasoning_text","text":"r"}]}]"#;
    let input = input(text);
    let direct = map_input(Some("i"), &input).unwrap();
    let stored = ltengine::responses_input::input_items(&input);
    let again = ltengine::responses_input::parse_input_items(stored).unwrap();
    assert_eq!(map_input(Some("i"), &again).unwrap(), direct);
    assert_eq!(direct.0, "i\ns");
    assert_eq!(
        direct.1,
        "u\nTool call `n` (c) with arguments {}\nTool result for `c`: {\"a\":1}\nr"
    );
}

#[test]
fn an_object_keeps_its_keys_in_order() {
    let object = JsonObject::new()
        .with("b", Json::Null)
        .with("a", Json::Bool(true))
        .with("b", Json::text("x"));
    assert_eq!(object.len(), 2);
    assert_eq!(object.key_at(0), "a");
    assert_eq!(json_to_string(&Json::Object(object.clone())), r#"{"a":true,"b":"x"}"#);
    assert_eq!(json_to_string(&Json::Object(object.without("a"))), r#"{"b":"x"}"#);
}
