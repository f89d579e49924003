//! Creating a response: the request, what it asks for, and the prompt.

use vstd::prelude::*;

use crate::json::{
    ascending,
    clone_values,
    first_unknown,
    values_view,
    Json,
    JsonObject,
    JsonView,
};
use crate::json_text::{json_from_bytes, json_from_slice};
use crate::llm::Generation;
use crate::records::{
    bool_fault,
    check_optional_bool,
    check_optional_list,
    check_optional_text,
    lemma_record_is_sound,
    list_fault,
    optional_bool,
    optional_list,
    optional_text,
    optional_value,
    read_record,
    record_fields,
    some_bool,
    some_list,
    some_text,
    some_value,
    text_fault,
    unless_null,
    Record,
    RecordModel,
};
use crate::responses_conversations::extend_items;
use crate::responses_generation::{
    derive_generation,
    generation_effect,
    GenerationEcho,
    GenerationEchoView,
    GenerationEffectView,
};
use crate::responses_http::{auth_fault, check_auth};
use crate::responses_input::{
    decode_input,
    field_or_null,
    input_items,
    items_of,
    map_input,
    output_items_as_input,
    outputs_as_input,
    parse_input_items,
    prompt_of,
    read_input,
    read_input_items,
    stored_items,
    stored_items_as_input,
    InputView,
    PromptTexts,
    ResponseInput,
};
use crate::responses_metadata::{metadata_fault, validate_metadata};
use crate::responses_profile::{sampled, ResponsesApi};
use crate::responses_reasoning::{
    decode_reasoning,
    derive_reasoning,
    read_reasoning,
    reasoning_effect,
    ReasoningEffect,
    ReasoningEffectView,
    ResponseReasoning,
    ResponseReasoningView,
};
use crate::responses_schema::{
    decode_text_config,
    derive_text,
    format_in,
    format_schema,
    format_schema_text,
    read_text_config,
    text_effect,
    ResponseTextConfig,
    StructuredFormat,
    StructuredFormatView,
    TextConfigView,
    TextEffectView,
    Verbosity,
};
use crate::responses_store::{
    ConversationRecord,
    ConversationView,
    StoredResponse,
    StoredResponseView,
};
use crate::responses_tools::{
    parse_tools,
    read_tools,
    schema_to_convert,
    text_result,
    tools_schema,
    ToolRequest,
    ToolRequestView,
};
use crate::text::{same_text, texts};

verus! {

/// The body of a request that creates a response.
#[derive(Debug)]
pub struct CreateRequest {
    pub model: Option<String>,
    pub instructions: Option<String>,
    pub input: ResponseInput,
    pub stream: Option<bool>,
    /// The accepted metadata, which the response echoes.
    pub metadata: Option<Json>,
    pub text: Option<ResponseTextConfig>,
    /// A credential in the body, which is refused.
    pub api_key: Option<Json>,
    pub tools: Option<Vec<Json>>,
    pub tool_choice: Option<Json>,
    pub parallel_tool_calls: Option<bool>,
    /// Whether the completed response is stored. It is by default.
    pub store: Option<bool>,
    /// The response that this one continues.
    pub previous_response_id: Option<String>,
    /// The conversation that this response belongs to.
    pub conversation: Option<String>,
    pub reasoning: Option<ResponseReasoning>,
    /// Whether the generation runs in the background.
    pub background: Option<bool>,
    pub temperature: Option<Json>,
    pub top_p: Option<Json>,
    pub max_output_tokens: Option<Json>,
}

/// The meaning of a [`CreateRequest`].
pub struct CreateRequestView {
    pub model: Option<Seq<char>>,
    pub instructions: Option<Seq<char>>,
    pub input: InputView,
    pub stream: Option<bool>,
    pub metadata: Option<JsonView>,
    pub text: Option<TextConfigView>,
    pub api_key: Option<JsonView>,
    pub tools: Option<Seq<JsonView>>,
    pub tool_choice: Option<JsonView>,
    pub parallel_tool_calls: Option<bool>,
    pub store: Option<bool>,
    pub previous_response_id: Option<Seq<char>>,
    pub conversation: Option<Seq<char>>,
    pub reasoning: Option<ResponseReasoningView>,
    pub background: Option<bool>,
    pub temperature: Option<JsonView>,
    pub top_p: Option<JsonView>,
    pub max_output_tokens: Option<JsonView>,
}

impl View for CreateRequest {
    type V = CreateRequestView;

    open spec fn view(&self) -> CreateRequestView {
        CreateRequestView {
            model: self.model.deep_view(),
            instructions: self.instructions.deep_view(),
            input: self.input@,
            stream: self.stream,
            metadata: self.metadata.deep_view(),
            text: match self.text {
                Some(text) => Some(text@),
                None => None,
            },
            api_key: self.api_key.deep_view(),
            tools: match self.tools {
                Some(tools) => Some(values_view(tools@)),
                None => None,
            },
            tool_choice: self.tool_choice.deep_view(),
            parallel_tool_calls: self.parallel_tool_calls,
            store: self.store,
            previous_response_id: self.previous_response_id.deep_view(),
            conversation: self.conversation.deep_view(),
            reasoning: match self.reasoning {
                Some(reasoning) => Some(reasoning@),
                None => None,
            },
            background: self.background,
            temperature: self.temperature.deep_view(),
            top_p: self.top_p.deep_view(),
            max_output_tokens: self.max_output_tokens.deep_view(),
        }
    }
}

/// The fault of a field of a request.
pub open spec fn request_fault(key: Seq<char>, value: JsonView) -> Option<Seq<char>> {
    if key == "model"@ || key == "instructions"@ || key == "previous_response_id"@ || key
        == "conversation"@ {
        unless_null(value, text_fault(value))
    } else if key == "stream"@ || key == "parallel_tool_calls"@ || key == "store"@ || key
        == "background"@ {
        unless_null(value, bool_fault(value))
    } else if key == "tools"@ {
        unless_null(value, list_fault(value))
    } else if key == "input"@ {
        match read_input(value) {
            Ok(_) => None,
            Err(fault) => Some(fault),
        }
    } else if key == "metadata"@ {
        metadata_fault(Some(value))
    } else if key == "text"@ {
        if value is Null {
            None
        } else {
            match read_text_config(value) {
                Ok(_) => None,
                Err(fault) => Some(fault),
            }
        }
    } else if key == "reasoning"@ {
        if value is Null {
            None
        } else {
            match read_reasoning(value) {
                Ok(_) => None,
                Err(fault) => Some(fault),
            }
        }
    } else {
        None
    }
}

/// The fields of a request.
pub open spec fn request_keys() -> Seq<Seq<char>> {
    seq![
        "model"@,
        "instructions"@,
        "input"@,
        "stream"@,
        "metadata"@,
        "text"@,
        "api_key"@,
        "tools"@,
        "tool_choice"@,
        "parallel_tool_calls"@,
        "store"@,
        "previous_response_id"@,
        "conversation"@,
        "reasoning"@,
        "background"@,
        "temperature"@,
        "top_p"@,
        "max_output_tokens"@,
    ]
}

/// The record of a request.
pub open spec fn request_model() -> RecordModel {
    RecordModel {
        name: "CreateRequest"@,
        fields: request_keys(),
        listed:
            "one of `model`, `instructions`, `input`, `stream`, `metadata`, `text`, `api_key`, `tools`, `tool_choice`, `parallel_tool_calls`, `store`, `previous_response_id`, `conversation`, `reasoning`, `background`, `temperature`, `top_p`, `max_output_tokens`"@,
        required: seq!["input"@],
        closed: true,
        fault: |key: Seq<char>, value: JsonView| request_fault(key, value),
    }
}

fn known_fields() -> (fields: Vec<&'static str>)
    ensures
        fields.deep_view() == request_keys(),
{
    let fields = vec![
        "model",
        "instructions",
        "input",
        "stream",
        "metadata",
        "text",
        "api_key",
        "tools",
        "tool_choice",
        "parallel_tool_calls",
        "store",
        "previous_response_id",
        "conversation",
        "reasoning",
        "background",
        "temperature",
        "top_p",
        "max_output_tokens",
    ];
    assert(fields.deep_view() =~= request_keys());
    fields
}

impl Record for CreateRequest {
    open spec fn model() -> RecordModel {
        request_model()
    }

    fn name() -> (name: &'static str) {
        "CreateRequest"
    }

    fn fields() -> (fields: Vec<&'static str>) {
        known_fields()
    }

    fn listed() -> (listed: &'static str) {
        "one of `model`, `instructions`, `input`, `stream`, `metadata`, `text`, `api_key`, `tools`, `tool_choice`, `parallel_tool_calls`, `store`, `previous_response_id`, `conversation`, `reasoning`, `background`, `temperature`, `top_p`, `max_output_tokens`"
    }

    fn closed() -> (closed: bool) {
        true
    }

    fn required() -> (required: Vec<&'static str>) {
        let required = vec!["input"];
        assert(required.deep_view() =~= request_model().required);
        required
    }

    fn fault(key: &str, value: &Json) -> (fault: Option<String>) {
        if same_text(key, "model") || same_text(key, "instructions") || same_text(
            key,
            "previous_response_id",
        ) || same_text(key, "conversation") {
            check_optional_text(value)
        } else if same_text(key, "stream") || same_text(key, "parallel_tool_calls") || same_text(
            key,
            "store",
        ) || same_text(key, "background") {
            check_optional_bool(value)
        } else if same_text(key, "tools") {
            check_optional_list(value)
        } else if same_text(key, "input") {
            match decode_input(value) {
                Ok(_) => None,
                Err(fault) => Some(fault),
            }
        } else if same_text(key, "metadata") {
            match validate_metadata(Some(value)) {
                Ok(_) => None,
                Err(fault) => Some(fault),
            }
        } else if same_text(key, "text") {
            if let Json::Null = value {
                return None;
            }
            match decode_text_config(value) {
                Ok(_) => None,
                Err(fault) => Some(fault),
            }
        } else if same_text(key, "reasoning") {
            if let Json::Null = value {
                return None;
            }
            match decode_reasoning(value) {
                Ok(_) => None,
                Err(fault) => Some(fault),
            }
        } else {
            None
        }
    }
}

/// The request of a record.
pub open spec fn request_of(fields: Map<Seq<char>, JsonView>) -> CreateRequestView {
    CreateRequestView {
        model: some_text(fields, "model"@),
        instructions: some_text(fields, "instructions"@),
        input: read_input(fields["input"@])->Ok_0,
        stream: some_bool(fields, "stream"@),
        metadata: some_value(fields, "metadata"@),
        text: match some_value(fields, "text"@) {
            Some(text) => Some(read_text_config(text)->Ok_0),
            None => None,
        },
        api_key: some_value(fields, "api_key"@),
        tools: some_list(fields, "tools"@),
        tool_choice: some_value(fields, "tool_choice"@),
        parallel_tool_calls: some_bool(fields, "parallel_tool_calls"@),
        store: some_bool(fields, "store"@),
        previous_response_id: some_text(fields, "previous_response_id"@),
        conversation: some_text(fields, "conversation"@),
        reasoning: match some_value(fields, "reasoning"@) {
            Some(reasoning) => Some(read_reasoning(reasoning)->Ok_0),
            None => None,
        },
        background: some_bool(fields, "background"@),
        temperature: some_value(fields, "temperature"@),
        top_p: some_value(fields, "top_p"@),
        max_output_tokens: some_value(fields, "max_output_tokens"@),
    }
}

/// The request that a value is read as, or its first fault.
pub open spec fn read_request(value: JsonView) -> Result<CreateRequestView, Seq<char>> {
    match record_fields(request_model(), value) {
        Ok(fields) => Ok(request_of(fields)),
        Err(fault) => Err(fault),
    }
}

/// In a request record the typed fields can be read.
proof fn lemma_request_fields(value: JsonView)
    requires
        record_fields(request_model(), value) is Ok,
    ensures
        ({
            let fields = record_fields(request_model(), value)->Ok_0;
            &&& fields.contains_key("input"@)
            &&& read_input(fields["input"@]) is Ok
            &&& some_value(fields, "text"@) matches Some(text) ==> read_text_config(text) is Ok
            &&& some_value(fields, "reasoning"@) matches Some(reasoning) ==> read_reasoning(
                reasoning,
            ) is Ok
        }),
{
    let model = request_model();
    let fields = record_fields(model, value)->Ok_0;
    assert(model.fields[2] == model.required[0]);
    lemma_record_is_sound(model, value);
    assert(fields.contains_key(model.required[0]));
    reveal_strlit("model");
    reveal_strlit("instructions");
    reveal_strlit("input");
    reveal_strlit("stream");
    reveal_strlit("metadata");
    reveal_strlit("text");
    reveal_strlit("tools");
    reveal_strlit("parallel_tool_calls");
    reveal_strlit("store");
    reveal_strlit("previous_response_id");
    reveal_strlit("conversation");
    reveal_strlit("reasoning");
    reveal_strlit("background");
    assert("input"@.len() == 5 && "input"@[0] == 'i' && "model"@[0] == 'm' && "store"@[0] == 's'
        && "tools"@[0] == 't');
    assert("text"@.len() == 4 && "reasoning"@.len() == 9);
    assert("instructions"@.len() == 12 && "previous_response_id"@.len() == 20
        && "conversation"@.len() == 12);
    assert("stream"@.len() == 6 && "parallel_tool_calls"@.len() == 19 && "background"@.len() == 10);
    assert("metadata"@.len() == 8 && "tools"@.len() == 5 && "model"@.len() == 5 && "store"@.len()
        == 5);
    assert((model.fault)("input"@, fields["input"@]) is None);
    if fields.contains_key("text"@) {
        assert((model.fault)("text"@, fields["text"@]) is None);
    }
    if fields.contains_key("reasoning"@) {
        assert((model.fault)("reasoning"@, fields["reasoning"@]) is None);
    }
}

/// Reads a request from its JSON value. The message is that of the first fault.
pub fn decode_request(value: &Json) -> (read: Result<CreateRequest, String>)
    ensures
        match read {
            Ok(request) => read_request(value@) == Ok::<CreateRequestView, Seq<char>>(request@),
            Err(fault) => read_request(value@) == Err::<CreateRequestView, Seq<char>>(fault@),
        },
{
    let fields = match read_record::<CreateRequest>(value) {
        Ok(fields) => fields,
        Err(fault) => {
            return Err(fault);
        },
    };
    proof {
        lemma_request_fields(value@);
    }
    let input = match fields.get("input") {
        Some(input) => match decode_input(input) {
            Ok(input) => input,
            Err(fault) => {
                return Err(fault);
            },
        },
        None => {
            return Err(String::new());
        },
    };
    let text = match optional_value(&fields, "text") {
        Some(text) => match decode_text_config(&text) {
            Ok(text) => Some(text),
            Err(_) => None,
        },
        None => None,
    };
    let reasoning = match optional_value(&fields, "reasoning") {
        Some(reasoning) => match decode_reasoning(&reasoning) {
            Ok(reasoning) => Some(reasoning),
            Err(_) => None,
        },
        None => None,
    };
    Ok(
        CreateRequest {
            model: optional_text(&fields, "model"),
            instructions: optional_text(&fields, "instructions"),
            input,
            stream: optional_bool(&fields, "stream"),
            metadata: optional_value(&fields, "metadata"),
            text,
            api_key: optional_value(&fields, "api_key"),
            tools: optional_list(&fields, "tools"),
            tool_choice: optional_value(&fields, "tool_choice"),
            parallel_tool_calls: optional_bool(&fields, "parallel_tool_calls"),
            store: optional_bool(&fields, "store"),
            previous_response_id: optional_text(&fields, "previous_response_id"),
            conversation: optional_text(&fields, "conversation"),
            reasoning,
            background: optional_bool(&fields, "background"),
            temperature: optional_value(&fields, "temperature"),
            top_p: optional_value(&fields, "top_p"),
            max_output_tokens: optional_value(&fields, "max_output_tokens"),
        },
    )
}

/// A refusal: the status and the message.
pub open spec fn refusal<T>(status: u16, message: Seq<char>) -> Result<T, (u16, Seq<char>)> {
    Err((status, message))
}

/// The view of a refusal.
pub open spec fn refusal_view(refused: (u16, String)) -> (u16, Seq<char>) {
    (refused.0, refused.1@)
}

/// The fields of a body that a request has.
pub open spec fn known_part(object: Map<Seq<char>, JsonView>) -> Map<Seq<char>, JsonView> {
    object.restrict(request_keys().to_set())
}

/// The request of a body, or why it is refused. Outside `deepseek` a field that a
/// request does not have is refused by name; under `deepseek` it is ignored.
pub open spec fn read_body_value(value: JsonView, profile: ResponsesApi) -> Result<
    CreateRequestView,
    (u16, Seq<char>),
> {
    match value {
        JsonView::Object(object) => match first_unknown(object, request_keys()) {
            Some(key) => if profile is Deepseek {
                read_known(JsonView::Object(known_part(object)))
            } else {
                refusal(400, "unknown field `"@ + key + "`"@)
            },
            None => read_known(value),
        },
        _ => refusal(400, "invalid request body: expected a JSON object"@),
    }
}

/// The request of a body without other fields, or why it is refused.
pub open spec fn read_known(value: JsonView) -> Result<CreateRequestView, (u16, Seq<char>)> {
    match read_request(value) {
        Ok(request) => Ok(request),
        Err(fault) => refusal(400, "invalid request body: "@ + fault),
    }
}

/// The request of the bytes of a body, or why it is refused.
pub open spec fn read_body(body: Seq<u8>, profile: ResponsesApi) -> Result<
    CreateRequestView,
    (u16, Seq<char>),
> {
    match json_from_bytes(body) {
        Ok(value) => read_body_value(value, profile),
        Err(error) => refusal(400, "invalid request body: "@ + error),
    }
}

/// What a read gave is what the contract speaks of.
pub open spec fn same_request(
    read: Result<CreateRequest, (u16, String)>,
    expected: Result<CreateRequestView, (u16, Seq<char>)>,
) -> bool {
    match read {
        Ok(request) => expected == Ok::<CreateRequestView, (u16, Seq<char>)>(request@),
        Err(refused) => expected == Err::<CreateRequestView, (u16, Seq<char>)>(
            refusal_view(refused),
        ),
    }
}

fn decode_known(value: &Json) -> (read: Result<CreateRequest, (u16, String)>)
    ensures
        same_request(read, read_known(value@)),
{
    match decode_request(value) {
        Ok(request) => Ok(request),
        Err(fault) => Err((400, "invalid request body: ".to_owned().concat(fault.as_str()))),
    }
}

fn keep_known(object: &JsonObject) -> (cleaned: JsonObject)
    ensures
        cleaned@ == known_part(object@),
{
    let fields = known_fields();
    let ghost keys = fields.deep_view();
    let mut cleaned = JsonObject::new();
    let size: usize = fields.len();
    for i in 0..size
        invariant
            size == fields@.len(),
            keys == fields.deep_view(),
            forall|key: Seq<char>|
                cleaned@.contains_key(key) <==> object@.contains_key(key) && exists|j: int|
                    0 <= j < i && keys[j] == key,
            forall|key: Seq<char>|
                cleaned@.contains_key(key) ==> #[trigger] cleaned@[key] == object@[key],
    {
        let ghost before = cleaned@;
        let ghost name = fields@[i as int]@;
        assert(keys[i as int] == name);
        if let Some(value) = object.get(fields[i]) {
            cleaned = cleaned.with(fields[i], value.clone());
        }
        assert forall|key: Seq<char>|
            cleaned@.contains_key(key) <==> object@.contains_key(key) && exists|j: int|
                0 <= j < i + 1 && keys[j] == key by {
            if key == name {
                assert(0 <= i < i + 1 && keys[i as int] == key);
            } else {
                if before.contains_key(key) {
                    let j = choose|j: int| 0 <= j < i && keys[j] == key;
                    assert(0 <= j < i + 1 && keys[j] == key);
                }
                if exists|j: int| 0 <= j < i + 1 && keys[j] == key {
                    let j = choose|j: int| 0 <= j < i + 1 && keys[j] == key;
                    assert(0 <= j < i && keys[j] == key);
                }
            }
        }
    }
    assert forall|key: Seq<char>| cleaned@.contains_key(key) <==> known_part(
        object@,
    ).contains_key(key) by {
        if keys.contains(key) {
            let j = keys.index_of(key);
            assert(0 <= j < size && keys[j] == key);
        }
    }
    assert(cleaned@ =~= known_part(object@));
    cleaned
}

/// The request of the JSON value of a body.
pub fn decode_body(value: &Json, profile: ResponsesApi) -> (read: Result<
    CreateRequest,
    (u16, String),
>)
    ensures
        same_request(read, read_body_value(value@, profile)),
{
    let object = match value {
        Json::Object(object) => object,
        _ => {
            return Err((400, "invalid request body: expected a JSON object".to_owned()));
        },
    };
    let known = known_fields();
    match object.unknown_key(&known) {
        None => decode_known(value),
        Some(key) => {
            if !profile.ignores_unsupported_fields() {
                return Err((400, "unknown field `".to_owned().concat(key.as_str()).concat("`")));
            }
            decode_known(&Json::Object(keep_known(object)))
        },
    }
}

/// The fields of a body that are ignored: under `deepseek` those that a request does
/// not have.
pub open spec fn ignored(value: JsonView, profile: ResponsesApi) -> Set<Seq<char>> {
    match value {
        JsonView::Object(object) => if profile is Deepseek {
            crate::json::unknown_keys(object, request_keys())
        } else {
            Set::empty()
        },
        _ => Set::empty(),
    }
}

/// The names of the fields of a body that are ignored, in key order, for the
/// operator to be told.
pub fn ignored_fields(value: &Json, profile: ResponsesApi) -> (names: Vec<String>)
    ensures
        ascending(texts(names@)),
        forall|key: Seq<char>| #[trigger]
            texts(names@).contains(key) <==> ignored(value@, profile).contains(key),
{
    if profile.ignores_unsupported_fields() {
        if let Json::Object(object) = value {
            return object.other_keys(&known_fields());
        }
    }
    Vec::new()
}

/// The request of the bytes of a body.
pub fn parse_body(body: &[u8], profile: ResponsesApi) -> (read: Result<
    CreateRequest,
    (u16, String),
>)
    ensures
        same_request(read, read_body(body@, profile)),
{
    match json_from_slice(body) {
        Ok(value) => decode_body(&value, profile),
        Err(error) => Err((400, "invalid request body: ".to_owned().concat(error.as_str()))),
    }
}

/// The wording for a credential in the body.
pub open spec fn body_credential_message() -> Seq<char> {
    "the body field `api_key` is not supported on this route; send `Authorization: Bearer <key>`"@
}

/// A read request that is let in, or why it is refused. A credential in the body is
/// refused as such, whatever the header says.
pub open spec fn authorized(
    read: Result<CreateRequestView, (u16, Seq<char>)>,
    api_key: Seq<char>,
    authorization: Option<Seq<char>>,
) -> Result<CreateRequestView, (u16, Seq<char>)> {
    match read {
        Err(refused) => Err(refused),
        Ok(request) => if request.api_key is Some {
            refusal(400, body_credential_message())
        } else {
            match auth_fault(api_key, authorization) {
                Some(message) => refusal(401, message),
                None => Ok(request),
            }
        },
    }
}

/// Lets a read request in. The body comes before the credential, so a request
/// with a credential in its body is never answered with 401.
pub fn authorize(
    read: Result<CreateRequest, (u16, String)>,
    api_key: &str,
    authorization: Option<&str>,
) -> (admitted: Result<CreateRequest, (u16, String)>)
    ensures
        same_request(
            admitted,
            authorized(
                match read {
                    Ok(request) => Ok(request@),
                    Err(refused) => Err(refusal_view(refused)),
                },
                api_key@,
                authorization.deep_view(),
            ),
        ),
{
    let request = match read {
        Ok(request) => request,
        Err(refused) => {
            return Err(refused);
        },
    };
    if request.api_key.is_some() {
        return Err(
            (
                400,
                "the body field `api_key` is not supported on this route; send `Authorization: Bearer <key>`".to_owned(),
            ),
        );
    }
    match check_auth(api_key, authorization) {
        Ok(_) => Ok(request),
        Err(message) => Err((401, message)),
    }
}

/// Reads the body and then checks the credential.
pub fn parse_and_authorize(
    body: &[u8],
    api_key: &str,
    authorization: Option<&str>,
    profile: ResponsesApi,
) -> (admitted: Result<CreateRequest, (u16, String)>)
    ensures
        same_request(
            admitted,
            authorized(read_body(body@, profile), api_key@, authorization.deep_view()),
        ),
{
    authorize(parse_body(body, profile), api_key, authorization)
}

/// The identifier of the loaded model, which requests name and responses echo: the
/// model file where one is given, otherwise the model's name.
pub fn loaded_model_identifier(model: &str, model_file: &str) -> (identifier: String)
    ensures
        identifier@ == if model_file@.len() == 0 {
            model@
        } else {
            model_file@
        },
{
    if model_file.is_empty() {
        model.to_owned()
    } else {
        model_file.to_owned()
    }
}

/// What came of the schemas that grammars are made from: each a grammar, or the
/// message of the failed conversion. One that is not needed is not looked at.
#[derive(Debug)]
pub struct Grammars {
    pub tools: Result<String, String>,
    pub format: Result<String, String>,
}

/// The meaning of [`Grammars`].
pub struct GrammarsView {
    pub tools: Result<Seq<char>, Seq<char>>,
    pub format: Result<Seq<char>, Seq<char>>,
}

impl View for Grammars {
    type V = GrammarsView;

    open spec fn view(&self) -> GrammarsView {
        GrammarsView { tools: text_result(self.tools), format: text_result(self.format) }
    }
}

/// The texts of the schemas that grammars are to be made from.
#[derive(Debug)]
pub struct GrammarSchemas {
    pub tools: Option<String>,
    pub format: Option<String>,
}

/// The schemas that a request needs grammars for.
pub fn grammar_schemas(request: &CreateRequest) -> (schemas: GrammarSchemas)
    ensures
        schemas.tools.deep_view() == schema_to_convert(
            request@.tools,
            request@.tool_choice,
            request@.parallel_tool_calls,
        ),
        schemas.format.deep_view() == match format_in(request@.text) {
            Some(format) => format_schema_text(format),
            None => None,
        },
{
    GrammarSchemas {
        tools: tools_schema(
            request.tools.as_ref(),
            request.tool_choice.as_ref(),
            request.parallel_tool_calls,
        ),
        format: format_schema(request.text.as_ref()),
    }
}

/// A validated request: the prompt and what it asks for.
#[derive(Debug)]
pub struct PreparedPrompt {
    pub system: String,
    pub user: String,
    pub format: StructuredFormat,
    pub tools: ToolRequest,
    pub reasoning: ReasoningEffect,
    /// The values that reach the sampler.
    pub generation: Generation,
    /// The values that the response echoes.
    pub generation_echo: GenerationEcho,
    pub verbosity: Verbosity,
    /// The directive that the profile and the verbosity add.
    pub verbosity_directive: Option<&'static str>,
}

/// The meaning of a [`PreparedPrompt`].
pub struct PreparedView {
    pub system: Seq<char>,
    pub user: Seq<char>,
    pub format: StructuredFormatView,
    pub tools: ToolRequestView,
    pub reasoning: ReasoningEffectView,
    pub generation: Generation,
    pub generation_echo: GenerationEchoView,
    pub verbosity: Verbosity,
    pub verbosity_directive: Option<Seq<char>>,
}

impl View for PreparedPrompt {
    type V = PreparedView;

    open spec fn view(&self) -> PreparedView {
        PreparedView {
            system: self.system@,
            user: self.user@,
            format: self.format@,
            tools: self.tools@,
            reasoning: self.reasoning@,
            generation: self.generation,
            generation_echo: self.generation_echo@,
            verbosity: self.verbosity,
            verbosity_directive: self.verbosity_directive.deep_view(),
        }
    }
}

/// The text with a note behind it, on a line of its own.
pub open spec fn with_note(system: Seq<char>, note: Option<Seq<char>>) -> Seq<char> {
    match note {
        Some(note) => if system.len() == 0 {
            note
        } else {
            system + "\n"@ + note
        },
        None => system,
    }
}

/// The system text with its notes: that of the tools, then the directive.
pub open spec fn with_notes(
    system: Seq<char>,
    tools: ToolRequestView,
    directive: Option<Seq<char>>,
) -> Seq<char> {
    with_note(with_note(system, tools.system_note()), directive)
}

/// Appends one note, on a line of its own where there is a text before it.
fn push_system_note(system: &mut String, note: &str)
    ensures
        final(system)@ == with_note(old(system)@, Some(note@)),
{
    if !system.as_str().is_empty() {
        system.append("\n");
    } else {
        assert(system@ + note@ =~= note@);
    }
    system.append(note);
}

/// Appends the note of the tools and then the directive.
fn append_system_notes(
    system: &mut String,
    tools: &ToolRequest,
    directive: Option<&'static str>,
)
    ensures
        final(system)@ == with_notes(old(system)@, tools@, directive.deep_view()),
{
    if let Some(note) = tools.system_note() {
        push_system_note(system, note.as_str());
    }
    if let Some(directive) = directive {
        push_system_note(system, directive);
    }
}

/// Why the choices of a request are refused, before what they ask for is looked
/// at.
pub open spec fn choice_refusal(request: CreateRequestView, loaded_model: Seq<char>) -> Option<
    Seq<char>,
> {
    if request.model is Some && request.model->0 != loaded_model {
        Some(
            "model `"@ + request.model->0 + "` is not loaded; loaded model is `"@ + loaded_model
                + "`"@,
        )
    } else if request.conversation is Some && request.previous_response_id is Some {
        Some("`conversation` cannot be combined with `previous_response_id`"@)
    } else if request.background == Some(true) && request.store == Some(false) {
        Some("`background` requires `store` to be `true`"@)
    } else if request.background == Some(true) && request.stream == Some(true) {
        Some("`background` cannot be combined with `stream: true`"@)
    } else {
        None
    }
}

/// The validated request, or why it is refused. Every refusal is a 400 whose
/// message names what is refused.
pub open spec fn validated(
    request: CreateRequestView,
    loaded_model: Seq<char>,
    profile: ResponsesApi,
    grammars: GrammarsView,
) -> Result<PreparedView, (u16, Seq<char>)> {
    match choice_refusal(request, loaded_model) {
        Some(message) => refusal(400, message),
        None => match read_tools(
            request.tools,
            request.tool_choice,
            request.parallel_tool_calls,
            grammars.tools,
        ) {
            Err(message) => refusal(400, message),
            Ok(tools) => match text_effect(request.text, grammars.format) {
                Err(message) => refusal(400, message),
                Ok(text) => match generation_effect(
                    request.temperature,
                    request.top_p,
                    request.max_output_tokens,
                ) {
                    Err(message) => refusal(400, message),
                    Ok(requested) => match reasoning_effect(request.reasoning, profile) {
                        Err(message) => refusal(400, message),
                        Ok(reasoning) => prepared_from(
                            request,
                            profile,
                            tools,
                            text,
                            requested,
                            reasoning,
                        ),
                    },
                },
            },
        },
    }
}

/// The directive that the profile and the verbosity add.
pub open spec fn directive_of(profile: ResponsesApi, verbosity: Verbosity) -> Option<Seq<char>> {
    if profile is Deepseek {
        None
    } else {
        verbosity.note()
    }
}

/// The prompt of a request whose parts were accepted, or why it is refused.
pub open spec fn prepared_from(
    request: CreateRequestView,
    profile: ResponsesApi,
    tools: ToolRequestView,
    text: TextEffectView,
    requested: GenerationEffectView,
    reasoning: ReasoningEffectView,
) -> Result<PreparedView, (u16, Seq<char>)> {
    if tools.offers_tools() && text.format.json_required {
        refusal(
            400,
            "`tools` and a structured `text.format` cannot be combined on this route"@,
        )
    } else {
        match prompt_of(request.instructions, request.input) {
            Err(message) => refusal(400, message),
            Ok(prompt) => Ok(
                PreparedView {
                    system: with_notes(
                        prompt.system,
                        tools,
                        directive_of(profile, text.verbosity),
                    ),
                    user: prompt.user,
                    format: text.format,
                    tools,
                    reasoning,
                    generation: sampled(profile, reasoning.thinking, requested.generation),
                    generation_echo: requested.echo,
                    verbosity: text.verbosity,
                    verbosity_directive: directive_of(profile, text.verbosity),
                },
            ),
        }
    }
}

fn refuse_choices(request: &CreateRequest, loaded_model: &str) -> (message: Option<String>)
    ensures
        message.deep_view() == choice_refusal(request@, loaded_model@),
{
    if let Some(model) = &request.model {
        if !same_text(model.as_str(), loaded_model) {
            return Some(
                "model `".to_owned().concat(model.as_str()).concat(
                    "` is not loaded; loaded model is `",
                ).concat(loaded_model).concat("`"),
            );
        }
    }
    if request.conversation.is_some() && request.previous_response_id.is_some() {
        return Some("`conversation` cannot be combined with `previous_response_id`".to_owned());
    }
    if is_true(request.background) {
        if is_false(request.store) {
            return Some("`background` requires `store` to be `true`".to_owned());
        }
        if is_true(request.stream) {
            return Some("`background` cannot be combined with `stream: true`".to_owned());
        }
    }
    None
}

/// True for a switch that is on.
pub fn is_true(switch: Option<bool>) -> (yes: bool)
    ensures
        yes == (switch == Some(true)),
{
    match switch {
        Some(on) => on,
        None => false,
    }
}

/// True for a switch that is off.
pub fn is_false(switch: Option<bool>) -> (yes: bool)
    ensures
        yes == (switch == Some(false)),
{
    match switch {
        Some(on) => !on,
        None => false,
    }
}

/// Validates a request before anything is generated. Whether it is streamed is no
/// matter here.
pub fn validate_request(
    request: &CreateRequest,
    loaded_model: &str,
    profile: ResponsesApi,
    grammars: Grammars,
) -> (read: Result<PreparedPrompt, (u16, String)>)
    ensures
        match read {
            Ok(prepared) => validated(request@, loaded_model@, profile, grammars@) == Ok::<
                PreparedView,
                (u16, Seq<char>),
            >(prepared@),
            Err(refused) => validated(request@, loaded_model@, profile, grammars@) == Err::<
                PreparedView,
                (u16, Seq<char>),
            >(refusal_view(refused)),
        },
{
    if let Some(message) = refuse_choices(request, loaded_model) {
        return Err((400, message));
    }
    let tools = match parse_tools(
        request.tools.as_ref(),
        request.tool_choice.as_ref(),
        request.parallel_tool_calls,
        grammars.tools,
    ) {
        Ok(tools) => tools,
        Err(message) => {
            return Err((400, message));
        },
    };
    let text = match derive_text(request.text.as_ref(), grammars.format) {
        Ok(text) => text,
        Err(message) => {
            return Err((400, message));
        },
    };
    let requested = match derive_generation(request) {
        Ok(requested) => requested,
        Err(message) => {
            return Err((400, message));
        },
    };
    let reasoning = match derive_reasoning(request.reasoning.as_ref(), profile) {
        Ok(reasoning) => reasoning,
        Err(message) => {
            return Err((400, message));
        },
    };
    let generation = profile.sampling(reasoning.thinking, requested.generation);
    let verbosity_directive = if profile.applies_verbosity_directive() {
        text.verbosity.directive()
    } else {
        None
    };
    if tools.offers_tools() && text.format.json_required {
        return Err(
            (
                400,
                "`tools` and a structured `text.format` cannot be combined on this route".to_owned(),
            ),
        );
    }
    let instructions = match &request.instructions {
        Some(instructions) => Some(instructions.as_str()),
        None => None,
    };
    match map_input(instructions, &request.input) {
        Err(message) => Err((400, message)),
        Ok((system, user)) => {
            let mut system = system;
            append_system_notes(&mut system, &tools, verbosity_directive);
            Ok(
                PreparedPrompt {
                    system,
                    user,
                    format: text.format,
                    tools,
                    reasoning,
                    generation,
                    generation_echo: requested.echo,
                    verbosity: text.verbosity,
                    verbosity_directive,
                },
            )
        },
    }
}

/// The prompt of a request, and the input items that are stored with its
/// response.
#[derive(Debug)]
pub struct EffectivePrompt {
    pub system: String,
    pub user: String,
    pub input_items: Vec<Json>,
}

/// The meaning of an [`EffectivePrompt`].
pub struct EffectiveView {
    pub system: Seq<char>,
    pub user: Seq<char>,
    pub input_items: Seq<JsonView>,
}

impl View for EffectivePrompt {
    type V = EffectiveView;

    open spec fn view(&self) -> EffectiveView {
        EffectiveView {
            system: self.system@,
            user: self.user@,
            input_items: values_view(self.input_items@),
        }
    }
}

/// The prompt of a list of input items, or why it is refused.
pub open spec fn prompt_of_items(
    request: CreateRequestView,
    prepared: PreparedView,
    items: Seq<JsonView>,
) -> Result<PromptTexts, Seq<char>> {
    match read_input_items(items) {
        Err(message) => Err(message),
        Ok(input) => match prompt_of(request.instructions, input) {
            Err(message) => Err(message),
            Ok(prompt) => Ok(
                PromptTexts {
                    system: with_notes(
                        prompt.system,
                        prepared.tools,
                        prepared.verbosity_directive,
                    ),
                    user: prompt.user,
                },
            ),
        },
    }
}

/// The items that a request continues a response with: the items that response
/// answered, its output, and the request's own.
pub open spec fn continued_items(previous: StoredResponseView, current: Seq<JsonView>) -> Seq<
    JsonView,
> {
    previous.input_items + outputs_as_input(field_or_null(previous.response, "output"@)) + current
}

/// The prompt of a request and the items to store, or why it is refused. The items
/// of a conversation come before the request's own and are not stored with the
/// response; those of a response that is continued are.
pub open spec fn effective(
    request: CreateRequestView,
    prepared: PreparedView,
    previous: Option<StoredResponseView>,
    conversation: Option<ConversationView>,
) -> Result<EffectiveView, Seq<char>> {
    let current = items_of(request.input);
    match (conversation, previous) {
        (Some(conversation), _) => match prompt_of_items(
            request,
            prepared,
            stored_items(conversation.items) + current,
        ) {
            Ok(prompt) => Ok(
                EffectiveView { system: prompt.system, user: prompt.user, input_items: current },
            ),
            Err(message) => Err(message),
        },
        (None, Some(previous)) => match prompt_of_items(
            request,
            prepared,
            continued_items(previous, current),
        ) {
            Ok(prompt) => Ok(
                EffectiveView {
                    system: prompt.system,
                    user: prompt.user,
                    input_items: continued_items(previous, current),
                },
            ),
            Err(message) => Err(message),
        },
        (None, None) => Ok(
            EffectiveView { system: prepared.system, user: prepared.user, input_items: current },
        ),
    }
}

/// The view of an optional response record.
pub open spec fn option_response(record: Option<&StoredResponse>) -> Option<StoredResponseView> {
    match record {
        Some(record) => Some(record@),
        None => None,
    }
}

/// The view of an optional conversation record.
pub open spec fn option_conversation(record: Option<&ConversationRecord>) -> Option<
    ConversationView,
> {
    match record {
        Some(record) => Some(record@),
        None => None,
    }
}

fn prompt_from(request: &CreateRequest, prepared: &PreparedPrompt, items: Vec<Json>) -> (read:
    Result<(String, String), String>)
    ensures
        match read {
            Ok((system, user)) => prompt_of_items(request@, prepared@, values_view(items@)) == Ok::<
                PromptTexts,
                Seq<char>,
            >(PromptTexts { system: system@, user: user@ }),
            Err(message) => prompt_of_items(request@, prepared@, values_view(items@)) == Err::<
                PromptTexts,
                Seq<char>,
            >(message@),
        },
{
    let input = match parse_input_items(items) {
        Ok(input) => input,
        Err(message) => {
            return Err(message);
        },
    };
    let instructions = match &request.instructions {
        Some(instructions) => Some(instructions.as_str()),
        None => None,
    };
    match map_input(instructions, &input) {
        Ok((system, user)) => {
            let mut system = system;
            append_system_notes(&mut system, &prepared.tools, prepared.verbosity_directive);
            Ok((system, user))
        },
        Err(message) => Err(message),
    }
}

/// The prompt of a request and the items to store. Without a conversation and a
/// response to continue, the prepared prompt is taken as it is.
pub fn effective_prompt(
    request: &CreateRequest,
    prepared: &PreparedPrompt,
    previous: Option<&StoredResponse>,
    conversation: Option<&ConversationRecord>,
) -> (read: Result<EffectivePrompt, String>)
    ensures
        match read {
            Ok(prompt) => effective(
                request@,
                prepared@,
                option_response(previous),
                option_conversation(conversation),
            ) == Ok::<EffectiveView, Seq<char>>(prompt@),
            Err(message) => effective(
                request@,
                prepared@,
                option_response(previous),
                option_conversation(conversation),
            ) == Err::<EffectiveView, Seq<char>>(message@),
        },
{
    let current = input_items(&request.input);
    if let Some(conversation) = conversation {
        let mut items = stored_items_as_input(&conversation.items);
        extend_items(&mut items, &current);
        return match prompt_from(request, prepared, items) {
            Ok((system, user)) => Ok(EffectivePrompt { system, user, input_items: current }),
            Err(message) => Err(message),
        };
    }
    let previous = match previous {
        Some(previous) => previous,
        None => {
            return Ok(
                EffectivePrompt {
                    system: prepared.system.clone(),
                    user: prepared.user.clone(),
                    input_items: current,
                },
            );
        },
    };
    let mut items = clone_values(&previous.input_items);
    let output = match previous.response.get("output") {
        Some(output) => output_items_as_input(output),
        None => output_items_as_input(&Json::Null),
    };
    extend_items(&mut items, &output);
    extend_items(&mut items, &current);
    match prompt_from(request, prepared, clone_values(&items)) {
        Ok((system, user)) => Ok(EffectivePrompt { system, user, input_items: items }),
        Err(message) => Err(message),
    }
}

/// How many output items are reserved in a conversation for one generation.
pub open spec fn reserved_items(tools: ToolRequestView) -> nat {
    if tools.offers_tools() && tools.parallel_tool_calls {
        tools.tools.len()
    } else {
        1
    }
}

/// How many output items are reserved in a conversation for one generation.
pub fn max_output_items(tools: &ToolRequest) -> (count: usize)
    ensures
        count == reserved_items(tools@),
{
    if tools.offers_tools() && tools.parallel_tool_calls {
        tools.tools.len()
    } else {
        1
    }
}

/// A request without a conversation and without a response to continue keeps the
/// prompt that was prepared for it.
pub proof fn law_lone_request_keeps_its_prompt(request: CreateRequestView, prepared: PreparedView)
    ensures
        effective(request, prepared, None, None) == Ok::<EffectiveView, Seq<char>>(
            EffectiveView {
                system: prepared.system,
                user: prepared.user,
                input_items: items_of(request.input),
            },
        ),
{
}

/// A body with a credential in it is refused with 400 and never with 401, even
/// where the header is wrong or missing.
pub proof fn law_body_credential_comes_first(
    request: CreateRequestView,
    api_key: Seq<char>,
    authorization: Option<Seq<char>>,
)
    requires
        request.api_key is Some,
    ensures
        authorized(Ok(request), api_key, authorization) == refusal::<CreateRequestView>(
            400,
            body_credential_message(),
        ),
{
}

/// Every refusal of a validation is a 400.
pub proof fn law_validation_refuses_with_400(
    request: CreateRequestView,
    loaded_model: Seq<char>,
    profile: ResponsesApi,
    grammars: GrammarsView,
)
    ensures
        validated(request, loaded_model, profile, grammars) matches Err(refused) ==> refused.0
            == 400,
{
}

/// A request that offers tools is never prepared together with a structured
/// format.
pub proof fn law_tools_exclude_a_structured_format(
    request: CreateRequestView,
    loaded_model: Seq<char>,
    profile: ResponsesApi,
    grammars: GrammarsView,
)
    ensures
        validated(request, loaded_model, profile, grammars) matches Ok(prepared) ==> !(
        prepared.tools.offers_tools() && prepared.format.json_required),
{
}

/// A request that asks for the loaded model by name is prepared as one that names
/// none.
pub proof fn law_model_name_makes_no_difference(
    request: CreateRequestView,
    loaded_model: Seq<char>,
    profile: ResponsesApi,
    grammars: GrammarsView,
)
    requires
        request.model == Some(loaded_model),
    ensures
        validated(request, loaded_model, profile, grammars) == validated(
            CreateRequestView { model: None, ..request },
            loaded_model,
            profile,
            grammars,
        ),
{
}

/// No field is ignored silently: outside `deepseek` a body is accepted only where
/// every field is one that a request has.
pub proof fn law_no_field_is_ignored(object: Map<Seq<char>, JsonView>, profile: ResponsesApi)
    requires
        !(profile is Deepseek),
        read_body_value(JsonView::Object(object), profile) is Ok,
    ensures
        forall|key: Seq<char>| #[trigger] object.contains_key(key) ==> request_keys().contains(key),
{
    assert forall|key: Seq<char>| #[trigger]
        object.contains_key(key) implies request_keys().contains(key) by {
        assert(!crate::json::unknown_keys(object, request_keys()).contains(key));
    }
}

/// Under `deepseek` the fields that a request does not have make no difference: a
/// body is read as the same body without them.
pub proof fn law_deepseek_drops_unknown_fields(object: Map<Seq<char>, JsonView>)
    ensures
        read_body_value(JsonView::Object(object), ResponsesApi::Deepseek) == read_body_value(
            JsonView::Object(known_part(object)),
            ResponsesApi::Deepseek,
        ),
{
    let known = known_part(object);
    assert forall|key: Seq<char>|
        !crate::json::unknown_keys(known, request_keys()).contains(key) by {}
    if first_unknown(object, request_keys()) is None {
        assert forall|key: Seq<char>| #[trigger]
            object.contains_key(key) implies request_keys().contains(key) by {
            assert(!crate::json::unknown_keys(object, request_keys()).contains(key));
        }
        assert(known =~= object);
    }
}

} // verus!
