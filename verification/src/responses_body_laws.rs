//! What the body of a request says is what the request holds.

use vstd::prelude::*;

use crate::json::{first_unknown, JsonView};
use crate::json_text::{json_from_bytes, json_text};
use crate::records::{lemma_record_is_sound, record_fields, RecordModel};
use crate::responses::{
    authorized,
    known_part,
    read_body,
    read_body_value,
    read_request,
    request_keys,
    request_model,
    CreateRequestView,
};
use crate::responses_input::read_input;
use crate::responses_profile::ResponsesApi;
use crate::responses_reasoning::{read_reasoning, reasoning_effect, ResponseReasoningView};
use crate::responses_request_laws::{has_text, lemma_is_there};
use crate::responses_schema::{
    config_model,
    format_model,
    format_refusal,
    format_schema_text,
    is_format_name,
    is_name_char,
    read_format,
    read_structured,
    read_text_config,
    text_effect,
    StructuredFormatView,
    TextConfigView,
    TextEffectView,
    TextFormatView,
    Verbosity,
};

verus! {

/// The value that a body gives under a key. A `null` is no value.
pub open spec fn given(object: Map<Seq<char>, JsonView>, key: Seq<char>) -> Option<JsonView> {
    if object.contains_key(key) && !(object[key] is Null) {
        Some(object[key])
    } else {
        None
    }
}

/// The JSON form of a text that may be missing.
pub open spec fn text_value(text: Option<Seq<char>>) -> Option<JsonView> {
    match text {
        Some(text) => Some(JsonView::Str(text)),
        None => None,
    }
}

/// The JSON form of a truth value that may be missing.
pub open spec fn bool_value(truth: Option<bool>) -> Option<JsonView> {
    match truth {
        Some(truth) => Some(JsonView::Bool(truth)),
        None => None,
    }
}

/// The JSON form of a list that may be missing.
pub open spec fn list_value(items: Option<Seq<JsonView>>) -> Option<JsonView> {
    match items {
        Some(items) => Some(JsonView::Array(items)),
        None => None,
    }
}

proof fn lemma_request_words()
    ensures
        "model"@.len() == 5 && "model"@[0] == 'm',
        "instructions"@.len() == 12 && "instructions"@[0] == 'i',
        "input"@.len() == 5 && "input"@[0] == 'i',
        "stream"@.len() == 6 && "stream"@[0] == 's',
        "metadata"@.len() == 8,
        "text"@.len() == 4,
        "api_key"@.len() == 7,
        "tools"@.len() == 5 && "tools"@[0] == 't' && "tools"@[4] == 's',
        "tool_choice"@.len() == 11,
        "parallel_tool_calls"@.len() == 19,
        "store"@.len() == 5 && "store"@[0] == 's',
        "previous_response_id"@.len() == 20,
        "conversation"@.len() == 12 && "conversation"@[0] == 'c',
        "reasoning"@.len() == 9,
        "background"@.len() == 10,
        "temperature"@.len() == 11,
        "top_p"@.len() == 5 && "top_p"@[0] == 't' && "top_p"@[4] == 'p',
        "max_output_tokens"@.len() == 17,
{
    reveal_strlit("model");
    reveal_strlit("instructions");
    reveal_strlit("input");
    reveal_strlit("stream");
    reveal_strlit("metadata");
    reveal_strlit("text");
    reveal_strlit("api_key");
    reveal_strlit("tools");
    reveal_strlit("tool_choice");
    reveal_strlit("parallel_tool_calls");
    reveal_strlit("store");
    reveal_strlit("previous_response_id");
    reveal_strlit("conversation");
    reveal_strlit("reasoning");
    reveal_strlit("background");
    reveal_strlit("temperature");
    reveal_strlit("top_p");
    reveal_strlit("max_output_tokens");
}

/// The request holds under every field what the object gives.
pub open spec fn holds_what_is_given(
    request: CreateRequestView,
    object: Map<Seq<char>, JsonView>,
) -> bool {
    &&& text_value(request.model) == given(object, "model"@)
    &&& text_value(request.instructions) == given(object, "instructions"@)
    &&& object.contains_key("input"@) && read_input(object["input"@]) == Ok::<_, Seq<char>>(
        request.input,
    )
    &&& bool_value(request.stream) == given(object, "stream"@)
    &&& request.metadata == given(object, "metadata"@)
    &&& request.text is Some == given(object, "text"@) is Some
    &&& request.text matches Some(config) ==> read_text_config(object["text"@]) == Ok::<
        _,
        Seq<char>,
    >(config)
    &&& request.api_key == given(object, "api_key"@)
    &&& list_value(request.tools) == given(object, "tools"@)
    &&& request.tool_choice == given(object, "tool_choice"@)
    &&& bool_value(request.parallel_tool_calls) == given(object, "parallel_tool_calls"@)
    &&& bool_value(request.store) == given(object, "store"@)
    &&& text_value(request.previous_response_id) == given(object, "previous_response_id"@)
    &&& text_value(request.conversation) == given(object, "conversation"@)
    &&& request.reasoning is Some == given(object, "reasoning"@) is Some
    &&& request.reasoning matches Some(reasoning) ==> read_reasoning(object["reasoning"@]) == Ok::<
        _,
        Seq<char>,
    >(reasoning)
    &&& bool_value(request.background) == given(object, "background"@)
    &&& request.temperature == given(object, "temperature"@)
    &&& request.top_p == given(object, "top_p"@)
    &&& request.max_output_tokens == given(object, "max_output_tokens"@)
}

#[verifier::rlimit(50)]
proof fn lemma_request_holds(object: Map<Seq<char>, JsonView>)
    requires
        read_request(JsonView::Object(object)) is Ok,
    ensures
        holds_what_is_given(read_request(JsonView::Object(object))->Ok_0, object),
{
    let model = request_model();
    let value = JsonView::Object(object);
    lemma_request_words();
    assert(model.fields[2] == model.required[0]);
    lemma_record_is_sound(model, value);
    assert(object.contains_key(model.required[0]));
    lemma_unfaulty(model, object, "model"@, 0);
    lemma_unfaulty(model, object, "instructions"@, 1);
    lemma_unfaulty(model, object, "input"@, 2);
    lemma_unfaulty(model, object, "stream"@, 3);
    lemma_unfaulty(model, object, "text"@, 5);
    lemma_unfaulty(model, object, "tools"@, 7);
    lemma_unfaulty(model, object, "parallel_tool_calls"@, 9);
    lemma_unfaulty(model, object, "store"@, 10);
    lemma_unfaulty(model, object, "previous_response_id"@, 11);
    lemma_unfaulty(model, object, "conversation"@, 12);
    lemma_unfaulty(model, object, "reasoning"@, 13);
    lemma_unfaulty(model, object, "background"@, 14);
}

/// A field of an object that is read as a record has no fault.
proof fn lemma_unfaulty(
    model: RecordModel,
    object: Map<Seq<char>, JsonView>,
    key: Seq<char>,
    at: int,
)
    requires
        record_fields(model, JsonView::Object(object)) is Ok,
        0 <= at < model.fields.len(),
        model.fields[at] == key,
        forall|i: int|
            0 <= i < model.required.len() ==> model.fields.contains(#[trigger] model.required[i]),
    ensures
        object.contains_key(key) ==> (model.fault)(key, object[key]) is None,
{
    lemma_record_is_sound(model, JsonView::Object(object));
    assert(model.fields.contains(key));
    let fields = record_fields(model, JsonView::Object(object))->Ok_0;
    assert(fields == object);
    if object.contains_key(key) {
        assert((model.fault)(key, fields[key]) is None);
    }
}

/// Whatever the body of an accepted request gives under a field, the request holds
/// under that field, and a field that the body leaves out or gives as `null` is
/// missing: no field is lost, changed or mixed up with another, under every profile.
pub proof fn law_request_holds_what_the_body_says(
    object: Map<Seq<char>, JsonView>,
    profile: ResponsesApi,
)
    ensures
        read_body_value(JsonView::Object(object), profile) matches Ok(request)
            ==> holds_what_is_given(request, object),
{
    if read_body_value(JsonView::Object(object), profile) is Ok {
        if first_unknown(object, request_keys()) is None {
            lemma_request_holds(object);
        } else {
            let known = known_part(object);
            lemma_request_holds(known);
            lemma_known_part(object);
        }
    }
}

/// The fields of a request are in the known part as they are in the body.
proof fn lemma_known_part(object: Map<Seq<char>, JsonView>)
    ensures
        forall|i: int|
            0 <= i < request_keys().len() ==> known_part(object).contains_key(
                #[trigger] request_keys()[i],
            ) == object.contains_key(request_keys()[i]) && (object.contains_key(request_keys()[i])
                ==> known_part(object)[request_keys()[i]] == object[request_keys()[i]]),
        given(known_part(object), "model"@) == given(object, "model"@),
        given(known_part(object), "instructions"@) == given(object, "instructions"@),
        known_part(object).contains_key("input"@) == object.contains_key("input"@),
        known_part(object).contains_key("input"@) ==> known_part(object)["input"@]
            == object["input"@],
        given(known_part(object), "stream"@) == given(object, "stream"@),
        given(known_part(object), "metadata"@) == given(object, "metadata"@),
        given(known_part(object), "text"@) == given(object, "text"@),
        given(known_part(object), "api_key"@) == given(object, "api_key"@),
        given(known_part(object), "tools"@) == given(object, "tools"@),
        given(known_part(object), "tool_choice"@) == given(object, "tool_choice"@),
        given(known_part(object), "parallel_tool_calls"@) == given(
            object,
            "parallel_tool_calls"@,
        ),
        given(known_part(object), "store"@) == given(object, "store"@),
        given(known_part(object), "previous_response_id"@) == given(
            object,
            "previous_response_id"@,
        ),
        given(known_part(object), "conversation"@) == given(object, "conversation"@),
        given(known_part(object), "reasoning"@) == given(object, "reasoning"@),
        given(known_part(object), "background"@) == given(object, "background"@),
        given(known_part(object), "temperature"@) == given(object, "temperature"@),
        given(known_part(object), "top_p"@) == given(object, "top_p"@),
        given(known_part(object), "max_output_tokens"@) == given(object, "max_output_tokens"@),
{
    let keys = request_keys();
    let known = known_part(object);
    assert forall|i: int| 0 <= i < keys.len() implies known.contains_key(#[trigger] keys[i])
        == object.contains_key(keys[i]) && (object.contains_key(keys[i]) ==> known[keys[i]]
        == object[keys[i]]) by {
        assert(keys.to_set().contains(keys[i]));
    }
    assert(keys[0] == "model"@ && keys[1] == "instructions"@ && keys[2] == "input"@ && keys[3]
        == "stream"@ && keys[4] == "metadata"@ && keys[5] == "text"@);
    assert(keys[6] == "api_key"@ && keys[7] == "tools"@ && keys[8] == "tool_choice"@ && keys[9]
        == "parallel_tool_calls"@ && keys[10] == "store"@ && keys[11] == "previous_response_id"@);
    assert(keys[12] == "conversation"@ && keys[13] == "reasoning"@ && keys[14] == "background"@
        && keys[15] == "temperature"@ && keys[16] == "top_p"@ && keys[17]
        == "max_output_tokens"@);
}

/// A request is let in as it was read, and a body that could not be read is refused as
/// it was.
pub proof fn law_letting_in_changes_nothing(
    read: Result<CreateRequestView, (u16, Seq<char>)>,
    api_key: Seq<char>,
    authorization: Option<Seq<char>>,
)
    ensures
        authorized(read, api_key, authorization) is Ok ==> authorized(read, api_key, authorization)
            == read,
        read is Err ==> authorized(read, api_key, authorization) == read,
{
}

/// Whatever a `text.format` gives is what the format holds.
pub proof fn law_format_holds_what_is_given(object: Map<Seq<char>, JsonView>)
    ensures
        read_format(JsonView::Object(object)) matches Ok(format) ==> {
            &&& given(object, "type"@) == Some(JsonView::Str(format.kind))
            &&& text_value(format.name) == given(object, "name"@)
            &&& text_value(format.description) == given(object, "description"@)
            &&& format.schema == given(object, "schema"@)
            &&& bool_value(format.strict) == given(object, "strict"@)
        },
{
    if read_format(JsonView::Object(object)) is Ok {
        let model = format_model();
        reveal_strlit("type");
        reveal_strlit("name");
        reveal_strlit("description");
        reveal_strlit("schema");
        reveal_strlit("strict");
        assert("type"@.len() == 4 && "name"@.len() == 4 && "type"@[0] == 't' && "name"@[0] == 'n');
        assert("description"@.len() == 11 && "schema"@.len() == 6 && "strict"@.len() == 6);
        assert("schema"@[1] == 'c' && "strict"@[1] == 't');
        assert(model.fields[0] == model.required[0]);
        lemma_record_is_sound(model, JsonView::Object(object));
        assert(object.contains_key(model.required[0]));
        lemma_unfaulty(model, object, "type"@, 0);
        lemma_unfaulty(model, object, "name"@, 1);
        lemma_unfaulty(model, object, "description"@, 2);
        lemma_unfaulty(model, object, "strict"@, 4);
    }
}

/// Whatever a `text` object gives is what the configuration holds.
pub proof fn law_text_holds_what_is_given(object: Map<Seq<char>, JsonView>)
    ensures
        read_text_config(JsonView::Object(object)) matches Ok(config) ==> {
            &&& config.verbosity == given(object, "verbosity"@)
            &&& config.format is Some == given(object, "format"@) is Some
            &&& config.format matches Some(format) ==> read_format(object["format"@]) == Ok::<
                _,
                Seq<char>,
            >(format)
        },
{
    if read_text_config(JsonView::Object(object)) is Ok {
        let model = config_model();
        reveal_strlit("format");
        reveal_strlit("verbosity");
        assert("format"@.len() == 6 && "verbosity"@.len() == 9);
        lemma_unfaulty(model, object, "format"@, 0);
    }
}

/// Whatever a `reasoning` object gives is what the request holds of it.
pub proof fn law_reasoning_holds_what_is_given(object: Map<Seq<char>, JsonView>)
    ensures
        read_reasoning(JsonView::Object(object)) matches Ok(reasoning) ==> {
            &&& reasoning.context == given(object, "context"@)
            &&& reasoning.effort == given(object, "effort"@)
            &&& reasoning.generate_summary == given(object, "generate_summary"@)
            &&& reasoning.mode == given(object, "mode"@)
            &&& reasoning.summary == given(object, "summary"@)
        },
{
}

proof fn lemma_kinds()
    ensures
        "text"@ != "json_object"@,
        "text"@ != "json_schema"@,
        "json_object"@ != "json_schema"@,
{
    reveal_strlit("text");
    reveal_strlit("json_object");
    reveal_strlit("json_schema");
    assert("text"@.len() == 4 && "json_object"@.len() == 11);
    assert("json_object"@[5] == 'o' && "json_schema"@[5] == 's');
}

/// Exactly three formats are accepted: plain text and any JSON object, each with
/// nothing but its type, and a named schema that is an object.
pub proof fn law_accepted_formats(format: TextFormatView)
    ensures
        format_refusal(format) is None <==> {
            ||| (format.kind == "text"@ || format.kind == "json_object"@) && format.name is None
                && format.description is None && format.schema is None && format.strict is None
            ||| format.kind == "json_schema"@ && (format.name matches Some(name)
                && is_format_name(name)) && (format.schema matches Some(schema)
                && schema is Object)
        },
{
    lemma_kinds();
}

/// Every format but plain text asks for JSON. The output is constrained to any object
/// for `json_object`, to the given schema for a strict `json_schema`, and otherwise
/// not at all. A grammar that could not be made is an error.
pub proof fn law_format_constrains_the_output(
    format: TextFormatView,
    schema: JsonView,
    converted: Result<Seq<char>, Seq<char>>,
)
    requires
        format_refusal(format) is None,
    ensures
        format.kind == "text"@ ==> read_structured(format, converted) == Ok::<_, Seq<char>>(
            (StructuredFormatView { json_required: false, grammar: None }),
        ),
        format.kind == "json_object"@ ==> format_schema_text(format) == Some(
            "{\"type\":\"object\"}"@,
        ),
        format.kind == "json_schema"@ && format.strict == Some(true) && format.schema == Some(
            schema,
        ) ==> format_schema_text(format) == Some(json_text(schema)),
        format.kind == "json_schema"@ && format.strict != Some(true) ==> read_structured(
            format,
            converted,
        ) == Ok::<_, Seq<char>>((StructuredFormatView { json_required: true, grammar: None })),
        format_schema_text(format) is Some ==> match converted {
            Ok(grammar) => read_structured(format, converted) == Ok::<_, Seq<char>>(
                (StructuredFormatView { json_required: true, grammar: Some(grammar) }),
            ),
            Err(_) => read_structured(format, converted) is Err,
        },
{
    lemma_kinds();
}

/// What is generated follows the `text` object: an accepted one takes effect with its
/// own format and its own verbosity, `medium` where it has none, and plain text where
/// it has no format.
pub proof fn law_text_takes_effect(
    config: TextConfigView,
    verbosity: Verbosity,
    converted: Result<Seq<char>, Seq<char>>,
)
    ensures
        text_effect(None, converted) == Ok::<_, Seq<char>>(
            (TextEffectView {
                format: StructuredFormatView { json_required: false, grammar: None },
                verbosity: Verbosity::Medium,
            }),
        ),
        text_effect(Some(config), converted) matches Ok(effect) ==> {
            &&& config.verbosity is None ==> effect.verbosity is Medium
            &&& config.verbosity == Some(JsonView::Str(verbosity.text())) ==> effect.verbosity
                == verbosity
            &&& config.format is None ==> effect.format == (StructuredFormatView {
                json_required: false,
                grammar: None,
            })
            &&& config.format matches Some(format) ==> read_structured(format, converted) == Ok::<
                _,
                Seq<char>,
            >(effect.format)
        },
        (config.verbosity is None || config.verbosity == Some(JsonView::Str(verbosity.text())))
            && (config.format matches Some(format) ==> read_structured(format, converted) is Ok)
            ==> text_effect(Some(config), converted) is Ok,
{
    crate::responses_schema::law_verbosity_reads_back(verbosity);
}

/// Which names a format may have: single letters, digits, underscores and hyphens, and
/// whatever is put together from such names up to 64 characters. Nothing longer and
/// nothing else is one.
pub proof fn law_format_names(first: Seq<char>, second: Seq<char>, c: char)
    ensures
        is_format_name(seq![c]) == ('a' <= c <= 'z' || 'A' <= c <= 'Z' || '0' <= c <= '9' || c
            == '_' || c == '-'),
        is_format_name(first) && is_format_name(second) && first.len() + second.len() <= 64
            ==> is_format_name(first + second),
        is_format_name(first) ==> 1 <= first.len() <= 64,
        is_format_name(first + seq![c]) ==> is_format_name(seq![c]),
        is_format_name(first + second) && first.len() > 0 ==> is_format_name(first),
{
    assert(seq![c][0] == c);
    let whole = first + second;
    if is_format_name(whole) {
        assert forall|i: int| 0 <= i < first.len() implies is_name_char(#[trigger] first[i]) by {
            assert(whole[i] == first[i]);
        }
    }
    let longer = first + seq![c];
    if is_format_name(longer) {
        assert(longer[first.len() as int] == c);
        assert(is_name_char(c));
    }
}

/// The bytes of a body are read as JSON, and what they say is what the request is read
/// from; bytes that are no JSON are refused with 400 and the reason.
pub proof fn law_body_is_read_as_json(body: Seq<u8>, profile: ResponsesApi)
    ensures
        match json_from_bytes(body) {
            Ok(value) => read_body(body, profile) == read_body_value(value, profile),
            Err(error) => read_body(body, profile) matches Err(refused) && refused.0 == 400
                && has_text(refused.1, error),
        },
        json_from_bytes(body) matches Ok(value) ==> !(value is Object) ==> (read_body(
            body,
            profile,
        ) matches Err(refused) && refused.0 == 400),
{
    if let Err(error) = json_from_bytes(body) {
        let start = "invalid request body: "@;
        lemma_is_there(start, error, Seq::empty());
        assert(start + error + Seq::<char>::empty() =~= start + error);
    }
}

/// A refused field is named: one that a request does not have, outside `deepseek`, and
/// one of `reasoning` that is not implemented.
pub proof fn law_refused_fields_are_named(
    object: Map<Seq<char>, JsonView>,
    key: Seq<char>,
    profile: ResponsesApi,
    reasoning: ResponseReasoningView,
)
    ensures
        first_unknown(object, request_keys()) == Some(key) && !(profile is Deepseek) ==> (
        read_body_value(JsonView::Object(object), profile) matches Err(refused) && refused.0 == 400
            && has_text(refused.1, key)),
        reasoning_effect(Some(reasoning), profile) matches Err(message) ==> {
            &&& reasoning.context is Some ==> has_text(message, "reasoning.context"@)
            &&& reasoning.context is None && reasoning.generate_summary is Some ==> has_text(
                message,
                "reasoning.generate_summary"@,
            )
            &&& reasoning.context is None && reasoning.generate_summary is None
                && reasoning.mode is Some ==> has_text(message, "reasoning.mode"@)
            &&& reasoning.context is None && reasoning.generate_summary is None
                && reasoning.mode is None && reasoning.summary is Some ==> has_text(
                message,
                "reasoning.summary"@,
            )
        },
{
    lemma_is_there("unknown field `"@, key, "`"@);
    lemma_is_there("`"@, "reasoning.context"@, "` is not implemented on this route"@);
    lemma_is_there("`"@, "reasoning.generate_summary"@, "` is not implemented on this route"@);
    lemma_is_there("`"@, "reasoning.mode"@, "` is not implemented on this route"@);
    lemma_is_there("`"@, "reasoning.summary"@, "` is not implemented on this route"@);
}

} // verus!
