//! Creating a response: from the prepared request to the reply.
//!
//! Creating a response alternates decisions and outside work. A [`Creation`] is
//! where the work stands; [`create_response`] takes what came of the last outside
//! work and says what to do next. Everything that can refuse a request is decided
//! before the one generation, and a success is answered only after what it stores
//! was written.

use vstd::prelude::*;

use crate::json::{field, text_field, values_view, Json, JsonView};
use crate::json_text::{json_from_str, json_from_text};
use crate::llm::{
    Generation,
    GenerationFailure,
    GenerationFailureView,
    LLMError,
    LLMErrorView,
    TokenUsage,
};
use crate::records::unit_result;
use crate::responses::{
    authorized,
    effective,
    effective_prompt,
    grammar_schemas,
    is_true,
    max_output_items,
    parse_and_authorize,
    read_body,
    reserved_items,
    validate_request,
    validated,
    CreateRequest,
    CreateRequestView,
    GrammarSchemas,
    Grammars,
    GrammarsView,
    PreparedPrompt,
    PreparedView,
};
use crate::responses_background::{
    bare_object,
    job_record,
    queue_response,
    BackgroundJob,
    JobView,
};
use crate::responses_conversations::{
    conversation_unwritten,
    extend_items,
    item_limit,
    item_limit_error,
    loaded_view,
    missing_reply,
    require_conversation,
    write_error,
};
use crate::responses_events::{
    build_stream_body_with_conversation,
    items_ids,
    output_items,
    stream_output,
    stream_response,
    stream_text,
    StreamOutput,
    StreamOutputView,
};
use crate::responses_http::{
    error_json,
    extractor_error,
    failure,
    no_response,
    not_found,
    ok_json,
    sse_response,
    streamed,
    success,
    Reply,
    ReplyBodyView,
    ReplyView,
};
use crate::responses_limits::{storage_full_message, Loaded};
use crate::responses_profile::{ReasoningTrace, ResponsesApi};
use crate::responses_reasoning::{ReasoningEffect, ReasoningEffectView};
use crate::responses_retrieve::store_unreadable;
use crate::responses_schema::{format_in, format_schema_text};
use crate::responses_shape::{
    build_response_with_conversation,
    calls_output,
    lemma_after,
    message_output,
    prepend_reasoning,
    reasoning,
    reasoning_item,
    response_object,
    usage_object,
    with_reasoning,
    IdSource,
    ResponseControls,
    ResponseControlsView,
    ResponseHead,
};
use crate::responses_store::{
    ConversationRecord,
    ConversationView,
    StoredResponse,
    StoredResponseView,
};
use crate::responses_tools::{
    decode_turn,
    read_turn,
    same_turn,
    schema_to_convert,
    ModelTurn,
    ModelTurnView,
    ToolEcho,
    ToolRequest,
    ToolRequestView,
};
use crate::text::{clone_text, decimal, trim, trimmed};

verus! {

/// What the operator set.
#[derive(Debug)]
pub struct CreateSettings {
    /// The identifier of the loaded model.
    pub model: String,
    pub profile: ResponsesApi,
    /// What becomes of a reasoning trace, where the operator says so.
    pub reasoning_trace: Option<ReasoningTrace>,
    /// The most items of a conversation; zero is no limit.
    pub max_conversation_items: usize,
    /// The most stored responses; zero is no limit.
    pub max_stored_responses: usize,
}

/// One generation that every check has passed, and what its response needs.
#[derive(Debug)]
pub struct GenerationPlan {
    pub model: String,
    pub system: String,
    pub user: String,
    pub grammar: Option<String>,
    pub reasoning: ReasoningEffect,
    pub generation: Generation,
    pub tools: ToolRequest,
    /// The generated text has to be JSON.
    pub json_required: bool,
    pub controls: ResponseControls,
    pub metadata: Option<Json>,
    /// The items that are stored with the response.
    pub input_items: Vec<Json>,
    /// The conversation that the response belongs to.
    pub conversation: Option<(String, ConversationRecord)>,
    pub streaming: bool,
    pub store: bool,
    pub background: bool,
    pub reasoning_trace: ReasoningTrace,
    /// The type of the content part that carries a reasoning trace.
    pub reasoning_part_type: String,
}

/// The meaning of a [`GenerationPlan`].
pub struct PlanView {
    pub model: Seq<char>,
    pub system: Seq<char>,
    pub user: Seq<char>,
    pub grammar: Option<Seq<char>>,
    pub reasoning: ReasoningEffectView,
    pub generation: Generation,
    pub tools: ToolRequestView,
    pub json_required: bool,
    pub controls: ResponseControlsView,
    pub metadata: Option<JsonView>,
    pub input_items: Seq<JsonView>,
    pub conversation: Option<(Seq<char>, ConversationView)>,
    pub streaming: bool,
    pub store: bool,
    pub background: bool,
    pub reasoning_trace: ReasoningTrace,
    pub reasoning_part_type: Seq<char>,
}

impl View for GenerationPlan {
    type V = PlanView;

    open spec fn view(&self) -> PlanView {
        PlanView {
            model: self.model@,
            system: self.system@,
            user: self.user@,
            grammar: self.grammar.deep_view(),
            reasoning: self.reasoning@,
            generation: self.generation,
            tools: self.tools@,
            json_required: self.json_required,
            controls: self.controls@,
            metadata: self.metadata.deep_view(),
            input_items: values_view(self.input_items@),
            conversation: match self.conversation {
                Some((id, record)) => Some((id@, record@)),
                None => None,
            },
            streaming: self.streaming,
            store: self.store,
            background: self.background,
            reasoning_trace: self.reasoning_trace,
            reasoning_part_type: self.reasoning_part_type@,
        }
    }
}

/// What the settings come to in a plan.
pub struct SettingsView {
    pub model: Seq<char>,
    pub profile: ResponsesApi,
    pub reasoning_trace: Option<ReasoningTrace>,
    pub max_conversation_items: nat,
    pub max_stored_responses: nat,
}

impl View for CreateSettings {
    type V = SettingsView;

    open spec fn view(&self) -> SettingsView {
        SettingsView {
            model: self.model@,
            profile: self.profile,
            reasoning_trace: self.reasoning_trace,
            max_conversation_items: self.max_conversation_items as nat,
            max_stored_responses: self.max_stored_responses as nat,
        }
    }
}

/// The values that the response echoes of the controls. Each is there only when
/// the request carried it.
pub open spec fn controls_of(request: CreateRequestView, prepared: PreparedView) -> ResponseControlsView {
    ResponseControlsView {
        temperature: prepared.generation_echo.temperature,
        top_p: prepared.generation_echo.top_p,
        max_output_tokens: prepared.generation_echo.max_output_tokens,
        verbosity: match request.text {
            Some(text) => if text.verbosity is Some {
                Some(prepared.verbosity.text())
            } else {
                None
            },
            None => None,
        },
    }
}

/// The grammar of a generation: that of the tools where they are offered,
/// otherwise that of the format.
pub open spec fn grammar_of(prepared: PreparedView) -> Option<Seq<char>> {
    if prepared.tools.offers_tools() {
        prepared.tools.grammar
    } else {
        prepared.format.grammar
    }
}

/// The conversation has room for what one generation may add.
pub open spec fn conversation_has_room(
    conversation: ConversationView,
    input_items: nat,
    tools: ToolRequestView,
    limit: nat,
) -> bool {
    limit == 0 || conversation.items.len() + input_items + reserved_items(tools) <= limit
}

/// The generation that a request comes to, or its refusal.
pub open spec fn planned(
    settings: SettingsView,
    request: CreateRequestView,
    prepared: PreparedView,
    previous: Option<StoredResponseView>,
    conversation: Option<ConversationView>,
) -> Result<PlanView, ReplyView> {
    match effective(request, prepared, previous, conversation) {
        Err(message) => Err(failure(400, message)),
        Ok(prompt) => if conversation is Some && !conversation_has_room(
            conversation->0,
            prompt.input_items.len(),
            prepared.tools,
            settings.max_conversation_items,
        ) {
            Err(failure(400, item_limit(settings.max_conversation_items)))
        } else {
            Ok(
                PlanView {
                    model: settings.model,
                    system: prompt.system,
                    user: prompt.user,
                    grammar: grammar_of(prepared),
                    reasoning: prepared.reasoning,
                    generation: prepared.generation,
                    tools: prepared.tools,
                    json_required: prepared.format.json_required,
                    controls: controls_of(request, prepared),
                    metadata: request.metadata,
                    input_items: prompt.input_items,
                    conversation: match (request.conversation, conversation) {
                        (Some(id), Some(record)) => Some((id, record)),
                        _ => None,
                    },
                    streaming: request.stream == Some(true),
                    store: request.store != Some(false),
                    background: request.background == Some(true),
                    reasoning_trace: match settings.reasoning_trace {
                        Some(trace) => trace,
                        None => ReasoningTrace::Omitted,
                    },
                    reasoning_part_type: "reasoning_text"@,
                },
            )
        },
    }
}

/// The view of an optional response record.
pub open spec fn held_response(record: Option<StoredResponse>) -> Option<StoredResponseView> {
    match record {
        Some(record) => Some(record@),
        None => None,
    }
}

/// The view of an optional conversation record.
pub open spec fn held_conversation(record: Option<ConversationRecord>) -> Option<
    ConversationView,
> {
    match record {
        Some(record) => Some(record@),
        None => None,
    }
}

fn room_for_generation(
    held: usize,
    input_items: usize,
    reserved: usize,
    limit: usize,
) -> (room: bool)
    ensures
        room == (limit == 0 || held + input_items + reserved <= limit),
{
    if limit == 0 {
        return true;
    }
    reserved <= limit && input_items <= limit - reserved && held <= limit - reserved - input_items
}

/// The generation that a request comes to: its prompt, its limits and what its
/// response echoes. The conversation's limit is checked here, before anything is
/// generated.
pub fn plan_generation(
    settings: &CreateSettings,
    request: CreateRequest,
    prepared: PreparedPrompt,
    previous: Option<StoredResponse>,
    conversation: Option<ConversationRecord>,
) -> (plan: Result<GenerationPlan, Reply>)
    ensures
        match plan {
            Ok(plan) => planned(
                settings@,
                request@,
                prepared@,
                held_response(previous),
                held_conversation(conversation),
            ) == Ok::<PlanView, ReplyView>(plan@),
            Err(reply) => planned(
                settings@,
                request@,
                prepared@,
                held_response(previous),
                held_conversation(conversation),
            ) == Err::<PlanView, ReplyView>(reply@),
        },
{
    let prompt = match effective_prompt(
        &request,
        &prepared,
        previous.as_ref(),
        conversation.as_ref(),
    ) {
        Ok(prompt) => prompt,
        Err(message) => {
            return Err(error_json(400, message));
        },
    };
    assert(prompt@.input_items.len() == prompt.input_items@.len());
    if let Some(record) = &conversation {
        assert(record@.items.len() == record.items@.len());
        if !room_for_generation(
            record.items.len(),
            prompt.input_items.len(),
            max_output_items(&prepared.tools),
            settings.max_conversation_items,
        ) {
            return Err(item_limit_error(settings.max_conversation_items));
        }
    }
    let verbosity = match &request.text {
        Some(text) => if text.verbosity.is_some() {
            Some(prepared.verbosity.as_str())
        } else {
            None
        },
        None => None,
    };
    let controls = ResponseControls {
        temperature: prepared.generation_echo.temperature,
        top_p: prepared.generation_echo.top_p,
        max_output_tokens: prepared.generation_echo.max_output_tokens,
        verbosity,
    };
    let grammar = if prepared.tools.offers_tools() {
        clone_text(&prepared.tools.grammar)
    } else {
        prepared.format.grammar
    };
    let reasoning_trace = match settings.reasoning_trace {
        Some(trace) => trace,
        None => settings.profile.reasoning_trace(),
    };
    let store = match request.store {
        Some(store) => store,
        None => true,
    };
    let conversation = match (request.conversation, conversation) {
        (Some(id), Some(record)) => Some((id, record)),
        _ => None,
    };
    Ok(
        GenerationPlan {
            model: settings.model.clone(),
            system: prompt.system,
            user: prompt.user,
            grammar,
            reasoning: prepared.reasoning,
            generation: prepared.generation,
            tools: prepared.tools,
            json_required: prepared.format.json_required,
            controls,
            metadata: request.metadata,
            input_items: prompt.input_items,
            conversation,
            streaming: is_true(request.stream),
            store,
            background: is_true(request.background),
            reasoning_trace,
            reasoning_part_type: settings.profile.reasoning_content_type().to_owned(),
        },
    )
}

/// The wording for a text that has to be JSON and is none.
pub open spec fn no_json(error: Seq<char>) -> Seq<char> {
    "the model did not produce valid JSON for `text.format`: "@ + error
}

/// Requires a generated text to be JSON.
pub fn require_json(text: &str) -> (checked: Result<(), String>)
    ensures
        match checked {
            Ok(_) => json_from_text(trimmed(text@)) is Ok,
            Err(message) => json_from_text(trimmed(text@)) matches Err(error) && message@
                == no_json(error),
        },
{
    match json_from_str(trim(text).as_str()) {
        Ok(_) => Ok(()),
        Err(error) => Err(
            "the model did not produce valid JSON for `text.format`: ".to_owned().concat(
                error.as_str(),
            ),
        ),
    }
}

/// The turn that a generated text is, or why it is none: the envelope where tools
/// are offered, JSON where the format requires it, otherwise the text. `parsed` is
/// what the text is as JSON.
pub open spec fn turn_from(
    tools: ToolRequestView,
    json_required: bool,
    text: Seq<char>,
    parsed: Result<JsonView, Seq<char>>,
) -> Result<ModelTurnView, Seq<char>> {
    if tools.offers_tools() {
        match parsed {
            Ok(value) => read_turn(value, tools),
            Err(error) => Err("the model did not produce the tool envelope: "@ + error),
        }
    } else {
        match parsed {
            Ok(_) => Ok(ModelTurnView::Message(text)),
            Err(error) => if json_required {
                Err(no_json(error))
            } else {
                Ok(ModelTurnView::Message(text))
            },
        }
    }
}

/// The turn that a generated text is, or why it is none. The text is read as JSON
/// without the white space around it.
pub open spec fn turn_of(
    tools: ToolRequestView,
    json_required: bool,
    text: Seq<char>,
) -> Result<ModelTurnView, Seq<char>> {
    turn_from(tools, json_required, text, json_from_text(trimmed(text)))
}

/// What a read of JSON gave.
pub open spec fn parsed_view(parsed: Result<Json, String>) -> Result<JsonView, Seq<char>> {
    match parsed {
        Ok(value) => Ok(value@),
        Err(error) => Err(error@),
    }
}

/// The turn that a generated text is, given what the text is as JSON.
pub fn decode_output(
    tools: &ToolRequest,
    json_required: bool,
    text: &str,
    parsed: Result<Json, String>,
) -> (turn: Result<ModelTurn, String>)
    ensures
        same_turn(turn, turn_from(tools@, json_required, text@, parsed_view(parsed))),
{
    if tools.offers_tools() {
        return match parsed {
            Ok(value) => decode_turn(&value, tools),
            Err(error) => Err(
                "the model did not produce the tool envelope: ".to_owned().concat(error.as_str()),
            ),
        };
    }
    if json_required {
        if let Err(error) = parsed {
            return Err(
                "the model did not produce valid JSON for `text.format`: ".to_owned().concat(
                    error.as_str(),
                ),
            );
        }
    }
    Ok(ModelTurn::Message(text.to_owned()))
}

/// The turn that a generated text is.
pub fn generated_turn(tools: &ToolRequest, json_required: bool, text: &str) -> (turn: Result<
    ModelTurn,
    String,
>)
    ensures
        same_turn(turn, turn_of(tools@, json_required, text@)),
{
    let parsed = if tools.offers_tools() || json_required {
        json_from_str(trim(text).as_str())
    } else {
        Ok(Json::Null)
    };
    decode_output(tools, json_required, text, parsed)
}

/// The output of a turn as the stream takes it.
pub open spec fn turn_output(turn: ModelTurnView) -> StreamOutputView {
    match turn {
        ModelTurnView::Message(text) => StreamOutputView::Text(text),
        ModelTurnView::Calls(calls) => StreamOutputView::Calls(calls),
    }
}

/// The reasoning item of a generation. There is one only where traces are kept and
/// there is a trace.
pub open spec fn trace_item(plan: PlanView, ids: IdSource, trace: Seq<char>) -> Option<JsonView> {
    if plan.reasoning_trace is Verbatim && trace.len() > 0 {
        Some(reasoning(ids.id("rs_"@, 0), trace, plan.reasoning_part_type))
    } else {
        None
    }
}

/// The source of the identifiers after the reasoning item.
pub open spec fn after_trace(plan: PlanView, ids: IdSource, trace: Seq<char>) -> IdSource {
    if trace_item(plan, ids, trace) is Some {
        ids.after(1)
    } else {
        ids
    }
}

/// The identifier of the conversation that a response shows.
pub open spec fn conversation_id(plan: PlanView) -> Option<Seq<char>> {
    match plan.conversation {
        Some((id, _)) => Some(id),
        None => None,
    }
}

/// What the response object of a plan shows.
pub open spec fn head_of(plan: PlanView, id: Seq<char>, created_at: u64) -> ResponseHead {
    ResponseHead {
        id,
        created_at,
        model: plan.model,
        metadata: plan.metadata,
        conversation: conversation_id(plan),
        echo: plan.tools.echo(),
        controls: plan.controls,
    }
}

/// A completed response: its reply, its object and its identifier.
pub struct CompletedView {
    pub reply: ReplyView,
    pub id: Seq<char>,
    pub output: Seq<JsonView>,
    pub object: JsonView,
}

/// The completed response of a turn. A streamed response takes its identifier
/// before its items, another one after them.
pub open spec fn completed(
    plan: PlanView,
    ids: IdSource,
    now: u64,
    turn: ModelTurnView,
    trace: Seq<char>,
    usage: TokenUsage,
) -> CompletedView {
    let item = trace_item(plan, ids, trace);
    let source = after_trace(plan, ids, trace);
    let output = turn_output(turn);
    if plan.streaming {
        let id = source.id("resp_"@, 0);
        let head = head_of(plan, id, now);
        let items = stream_output(source, output, item);
        CompletedView {
            reply: streamed(stream_text(head, items, usage)),
            id,
            output: items,
            object: stream_response(head, items, usage),
        }
    } else {
        let id = source.after(items_ids(output)).id("resp_"@, 0);
        let items = with_reasoning(
            JsonView::Array(output_items(source, output)),
            item,
        )->Array_0;
        let object = response_object(
            head_of(plan, id, now),
            "completed"@,
            JsonView::Array(items),
            usage_object(usage),
        );
        CompletedView { reply: success(object), id, output: items, object }
    }
}

/// The record of a completed response.
pub open spec fn record_of(plan: PlanView, done: CompletedView) -> StoredResponseView {
    StoredResponseView { response: done.object, input_items: plan.input_items }
}

/// The conversation with what the request put in and what the response put out.
pub open spec fn continued(
    conversation: ConversationView,
    input_items: Seq<JsonView>,
    output: Seq<JsonView>,
) -> ConversationView {
    ConversationView { items: conversation.items + input_items + output, ..conversation }
}

/// What a completed response still needs: its record and its conversation to be
/// written, and then the reply.
#[derive(Debug)]
pub struct Completion {
    pub reply: Reply,
    /// The response to store, under its identifier.
    pub record: Option<(String, StoredResponse)>,
    /// The conversation to store, under its identifier.
    pub conversation: Option<(String, ConversationRecord)>,
}

/// The meaning of a [`Completion`].
pub struct CompletionView {
    pub reply: ReplyView,
    pub record: Option<(Seq<char>, StoredResponseView)>,
    pub conversation: Option<(Seq<char>, ConversationView)>,
}

/// The view of an optional conversation under its identifier.
pub open spec fn named_conversation(conversation: Option<(String, ConversationRecord)>) -> Option<
    (Seq<char>, ConversationView),
> {
    match conversation {
        Some((id, record)) => Some((id@, record@)),
        None => None,
    }
}

impl View for Completion {
    type V = CompletionView;

    open spec fn view(&self) -> CompletionView {
        CompletionView {
            reply: self.reply@,
            record: match self.record {
                Some((id, record)) => Some((id@, record@)),
                None => None,
            },
            conversation: named_conversation(self.conversation),
        }
    }
}

/// What the completed response of a turn still needs.
pub open spec fn completion(
    plan: PlanView,
    ids: IdSource,
    now: u64,
    turn: ModelTurnView,
    trace: Seq<char>,
    usage: TokenUsage,
) -> CompletionView {
    let done = completed(plan, ids, now, turn, trace, usage);
    CompletionView {
        reply: done.reply,
        record: if plan.store {
            Some((done.id, record_of(plan, done)))
        } else {
            None
        },
        conversation: match plan.conversation {
            Some((id, conversation)) => Some(
                (id, continued(conversation, plan.input_items, done.output)),
            ),
            None => None,
        },
    }
}

/// How many identifiers a completed response takes.
pub open spec fn completion_ids(
    plan: PlanView,
    ids: IdSource,
    turn: ModelTurnView,
    trace: Seq<char>,
) -> IdSource {
    after_trace(plan, ids, trace).after(1 + items_ids(turn_output(turn)))
}

/// Puts a completed response together: its reply, and what is to be stored before
/// it is sent.
pub fn complete_response(
    plan: GenerationPlan,
    ids: &mut IdSource,
    now: u64,
    turn: ModelTurn,
    trace: &str,
    usage: &TokenUsage,
) -> (done: Completion)
    requires
        usage.fits(),
    ensures
        done@ == completion(plan@, *old(ids), now, turn@, trace@, *usage),
        *final(ids) == completion_ids(plan@, *old(ids), turn@, trace@),
{
    let ghost start = *ids;
    let ghost view = plan@;
    let echo = ToolEcho::from_request(&plan.tools);
    let item = if matches!(plan.reasoning_trace, ReasoningTrace::Verbatim) && !trace.is_empty() {
        Some(reasoning_item(ids, trace, plan.reasoning_part_type.as_str()))
    } else {
        None
    };
    let ghost source = *ids;
    assert(source == after_trace(view, start, trace@));
    assert(item.deep_view() == trace_item(view, start, trace@));
    let conversation_id = match &plan.conversation {
        Some((id, _)) => Some(id.as_str()),
        None => None,
    };
    let ghost finished = completed(view, start, now, turn@, trace@, *usage);
    proof {
        lemma_after(source, items_ids(turn_output(turn@)), 1);
    }
    let (reply, object) = if plan.streaming {
        let output = match &turn {
            ModelTurn::Message(text) => StreamOutput::Text(text.as_str()),
            ModelTurn::Calls(calls) => StreamOutput::Calls(calls),
        };
        assert(output@ == turn_output(turn@));
        let (body, object) = build_stream_body_with_conversation(
            ids,
            now,
            plan.model.as_str(),
            output,
            item.as_ref(),
            &echo,
            plan.metadata.as_ref(),
            conversation_id,
            &plan.controls,
            usage,
        );
        (sse_response(body), object)
    } else {
        let output = match &turn {
            ModelTurn::Message(text) => message_output(ids, text.as_str()),
            ModelTurn::Calls(calls) => calls_output(ids, calls),
        };
        assert(output@ == JsonView::Array(output_items(source, turn_output(turn@))));
        let object = build_response_with_conversation(
            ids,
            now,
            plan.model.as_str(),
            prepend_reasoning(output, item.as_ref()),
            &echo,
            plan.metadata.as_ref(),
            conversation_id,
            &plan.controls,
            usage,
        );
        (ok_json(object.clone()), object)
    };
    assert(object@ == finished.object);
    assert(reply@ == finished.reply);
    proof {
        lemma_response_fields(
            head_of(view, finished.id, now),
            "completed"@,
            finished.output,
            usage_object(*usage),
        );
    }
    let conversation = match plan.conversation {
        Some((id, conversation)) => {
            let mut record = conversation;
            extend_items(&mut record.items, &plan.input_items);
            if let Some(Json::Array(output)) = object.get("output") {
                proof {
                    let list = Json::Array(*output);
                    assert(list@->Array_0 =~= values_view(output@));
                }
                extend_items(&mut record.items, output);
            }
            Some((id, record))
        },
        None => None,
    };
    let record = if plan.store {
        let id = match object.get_str("id") {
            Some(id) => id.to_owned(),
            None => String::new(),
        };
        Some((id, StoredResponse { response: object, input_items: plan.input_items }))
    } else {
        None
    };
    Completion { reply, record, conversation }
}

/// The identifier and the output of a response object are the ones it was built
/// with.
pub proof fn lemma_response_fields(
    head: ResponseHead,
    status: Seq<char>,
    output: Seq<JsonView>,
    usage: JsonView,
)
    ensures
        ({
            let object = response_object(head, status, JsonView::Array(output), usage);
            &&& text_field(object, "id"@) == Some(head.id)
            &&& field(object, "output"@) == Some(JsonView::Array(output))
            &&& field(object, "usage"@) == Some(usage)
            &&& text_field(object, "model"@) == Some(head.model)
            &&& text_field(object, "status"@) == Some(status)
            &&& field(object, "created_at"@) == Some(
                crate::json::unsigned(head.created_at as nat),
            )
        }),
{
    reveal_strlit("id");
    reveal_strlit("object");
    reveal_strlit("created_at");
    reveal_strlit("status");
    reveal_strlit("model");
    reveal_strlit("metadata");
    reveal_strlit("parallel_tool_calls");
    reveal_strlit("tool_choice");
    reveal_strlit("tools");
    reveal_strlit("output");
    reveal_strlit("usage");
    reveal_strlit("conversation");
    reveal_strlit("temperature");
    reveal_strlit("top_p");
    reveal_strlit("max_output_tokens");
    reveal_strlit("text");
    assert("output"@[1] == 'u' && "object"@[1] == 'b' && "status"@[0] == 's' && "output"@[0] == 'o'
        && "object"@[0] == 'o');
    assert("usage"@[0] == 'u' && "model"@[0] == 'm' && "top_p"@[0] == 't' && "tools"@[0] == 't');
    assert("id"@.len() == 2 && "text"@.len() == 4 && "model"@.len() == 5 && "tools"@.len() == 5);
    assert("usage"@.len() == 5 && "top_p"@.len() == 5 && "object"@.len() == 6);
    assert("output"@.len() == 6 && "status"@.len() == 6 && "metadata"@.len() == 8);
    assert("created_at"@.len() == 10 && "tool_choice"@.len() == 11 && "temperature"@.len() == 11);
    assert("conversation"@.len() == 12 && "max_output_tokens"@.len() == 17);
    assert("parallel_tool_calls"@.len() == 19);
}

/// A successful generation.
#[derive(Debug)]
pub struct Generated {
    /// The generated text without its trace.
    pub text: String,
    /// The reasoning trace.
    pub trace: String,
    pub usage: TokenUsage,
}

/// Where the creation of a response stands: what it is waiting for.
#[derive(Debug)]
pub enum Creation {
    /// For the grammars of the request.
    Preparing(CreateRequest),
    /// For the response that the request continues.
    ReadingPrevious(CreateRequest, PreparedPrompt),
    /// For the conversation of the request.
    ReadingConversation(CreateRequest, PreparedPrompt, Option<StoredResponse>),
    /// For the expired responses to be removed.
    MakingRoom(GenerationPlan),
    /// For the generation.
    Generating(GenerationPlan),
    /// For the response to be stored.
    StoringResponse(Reply, Option<(String, ConversationRecord)>),
    /// For the conversation to be stored.
    StoringConversation(Reply),
    /// For the queued response to be stored.
    Queueing(BackgroundJob, Reply),
    /// For nothing: it was answered.
    Finished,
}

/// The meaning of a [`Creation`].
pub enum CreationView {
    Preparing(CreateRequestView),
    ReadingPrevious(CreateRequestView, PreparedView),
    ReadingConversation(CreateRequestView, PreparedView, Option<StoredResponseView>),
    MakingRoom(PlanView),
    Generating(PlanView),
    StoringResponse(ReplyView, Option<(Seq<char>, ConversationView)>),
    StoringConversation(ReplyView),
    Queueing(JobView, ReplyView),
    Finished,
}

impl View for Creation {
    type V = CreationView;

    open spec fn view(&self) -> CreationView {
        match *self {
            Creation::Preparing(request) => CreationView::Preparing(request@),
            Creation::ReadingPrevious(request, prepared) => CreationView::ReadingPrevious(
                request@,
                prepared@,
            ),
            Creation::ReadingConversation(
                request,
                prepared,
                previous,
            ) => CreationView::ReadingConversation(request@, prepared@, held_response(previous)),
            Creation::MakingRoom(plan) => CreationView::MakingRoom(plan@),
            Creation::Generating(plan) => CreationView::Generating(plan@),
            Creation::StoringResponse(reply, conversation) => CreationView::StoringResponse(
                reply@,
                named_conversation(conversation),
            ),
            Creation::StoringConversation(reply) => CreationView::StoringConversation(reply@),
            Creation::Queueing(job, reply) => CreationView::Queueing(job@, reply@),
            Creation::Finished => CreationView::Finished,
        }
    }
}

/// What came of the outside work.
#[derive(Debug)]
pub enum CreationEvent {
    Grammars(Grammars),
    Previous(Result<Loaded<StoredResponse>, String>),
    Conversation(Result<Loaded<ConversationRecord>, String>),
    /// Whether a new response fits into the store.
    Room(Result<bool, String>),
    Generation(Result<Generated, GenerationFailure>),
    ResponseStored(Result<(), String>),
    ConversationStored(Result<(), String>),
}

/// The meaning of a [`CreationEvent`].
pub enum EventView {
    Grammars(GrammarsView),
    Previous(Result<Option<StoredResponseView>, Seq<char>>),
    Conversation(Result<Option<ConversationView>, Seq<char>>),
    Room(Result<bool, Seq<char>>),
    Generated(Seq<char>, Seq<char>, TokenUsage),
    GenerationFailed(GenerationFailureView),
    ResponseStored(Result<(), Seq<char>>),
    ConversationStored(Result<(), Seq<char>>),
}

/// What a store read of a response gave. An expired response counts as missing.
pub open spec fn loaded_response_view(loaded: Result<Loaded<StoredResponse>, String>) -> Result<
    Option<StoredResponseView>,
    Seq<char>,
> {
    match loaded {
        Ok(Loaded::Live(record)) => Ok(Some(record@)),
        Ok(_) => Ok(None),
        Err(error) => Err(error@),
    }
}

impl View for CreationEvent {
    type V = EventView;

    open spec fn view(&self) -> EventView {
        match *self {
            CreationEvent::Grammars(grammars) => EventView::Grammars(grammars@),
            CreationEvent::Previous(loaded) => EventView::Previous(loaded_response_view(loaded)),
            CreationEvent::Conversation(loaded) => EventView::Conversation(loaded_view(loaded)),
            CreationEvent::Room(room) => EventView::Room(
                match room {
                    Ok(fits) => Ok(fits),
                    Err(error) => Err(error@),
                },
            ),
            CreationEvent::Generation(Ok(generated)) => EventView::Generated(
                generated.text@,
                generated.trace@,
                generated.usage,
            ),
            CreationEvent::Generation(Err(failure)) => EventView::GenerationFailed(failure@),
            CreationEvent::ResponseStored(stored) => EventView::ResponseStored(unit_result(stored)),
            CreationEvent::ConversationStored(stored) => EventView::ConversationStored(
                unit_result(stored),
            ),
        }
    }
}

/// The outside work that comes next.
#[derive(Debug)]
pub enum CreationAction {
    /// Make grammars from the schemas.
    MakeGrammars(GrammarSchemas),
    /// Read the response of an identifier.
    ReadResponse(String),
    /// Read the conversation of an identifier.
    ReadConversation(String),
    /// Remove the expired responses, and see whether a new one fits.
    MakeRoom,
    /// Generate by the plan that the creation holds.
    Generate,
    /// Store a response under its identifier.
    StoreResponse(String, StoredResponse),
    /// Store a conversation under its identifier.
    StoreConversation(String, ConversationRecord),
    /// Start the job and send the reply.
    StartJob(BackgroundJob, Reply),
    /// Send the reply.
    Answer(Reply),
}

/// The meaning of a [`CreationAction`].
pub enum ActionView {
    MakeGrammars(Option<Seq<char>>, Option<Seq<char>>),
    ReadResponse(Seq<char>),
    ReadConversation(Seq<char>),
    MakeRoom,
    Generate,
    StoreResponse(Seq<char>, StoredResponseView),
    StoreConversation(Seq<char>, ConversationView),
    StartJob(JobView, ReplyView),
    Answer(ReplyView),
}

impl View for CreationAction {
    type V = ActionView;

    open spec fn view(&self) -> ActionView {
        match *self {
            CreationAction::MakeGrammars(schemas) => ActionView::MakeGrammars(
                schemas.tools.deep_view(),
                schemas.format.deep_view(),
            ),
            CreationAction::ReadResponse(id) => ActionView::ReadResponse(id@),
            CreationAction::ReadConversation(id) => ActionView::ReadConversation(id@),
            CreationAction::MakeRoom => ActionView::MakeRoom,
            CreationAction::Generate => ActionView::Generate,
            CreationAction::StoreResponse(id, record) => ActionView::StoreResponse(id@, record@),
            CreationAction::StoreConversation(id, record) => ActionView::StoreConversation(
                id@,
                record@,
            ),
            CreationAction::StartJob(job, reply) => ActionView::StartJob(job@, reply@),
            CreationAction::Answer(reply) => ActionView::Answer(reply@),
        }
    }
}

/// The next step: where the creation then stands and what comes next.
pub struct StepView {
    pub state: CreationView,
    pub action: ActionView,
}

/// The creation ends with a reply.
pub open spec fn answered(reply: ReplyView) -> StepView {
    StepView { state: CreationView::Finished, action: ActionView::Answer(reply) }
}

/// The first step: a request that is let in needs its grammars.
pub open spec fn begun(admitted: Result<CreateRequestView, (u16, Seq<char>)>) -> StepView {
    match admitted {
        Err((status, message)) => answered(failure(status, message)),
        Ok(request) => StepView {
            state: CreationView::Preparing(request),
            action: ActionView::MakeGrammars(
                schema_to_convert(
                    request.tools,
                    request.tool_choice,
                    request.parallel_tool_calls,
                ),
                match format_in(request.text) {
                    Some(format) => format_schema_text(format),
                    None => None,
                },
            ),
        },
    }
}

/// The step from everything that a plan needs.
pub open spec fn step_to_plan(
    settings: SettingsView,
    request: CreateRequestView,
    prepared: PreparedView,
    previous: Option<StoredResponseView>,
    conversation: Option<ConversationView>,
) -> StepView {
    match planned(settings, request, prepared, previous, conversation) {
        Err(reply) => answered(reply),
        Ok(plan) => if plan.background || plan.store {
            StepView { state: CreationView::MakingRoom(plan), action: ActionView::MakeRoom }
        } else {
            StepView { state: CreationView::Generating(plan), action: ActionView::Generate }
        },
    }
}

/// The step to the conversation, where the request has one.
pub open spec fn step_to_conversation(
    settings: SettingsView,
    request: CreateRequestView,
    prepared: PreparedView,
    previous: Option<StoredResponseView>,
) -> StepView {
    match request.conversation {
        Some(id) => StepView {
            state: CreationView::ReadingConversation(request, prepared, previous),
            action: ActionView::ReadConversation(id),
        },
        None => step_to_plan(settings, request, prepared, previous, None),
    }
}

/// The step to the response that is continued, where there is one.
pub open spec fn step_to_previous(
    settings: SettingsView,
    request: CreateRequestView,
    prepared: PreparedView,
) -> StepView {
    match request.previous_response_id {
        Some(id) => StepView {
            state: CreationView::ReadingPrevious(request, prepared),
            action: ActionView::ReadResponse(id),
        },
        None => step_to_conversation(settings, request, prepared, None),
    }
}

/// The step from a stored response, or from one that is not stored.
pub open spec fn step_to_write_conversation(
    reply: ReplyView,
    conversation: Option<(Seq<char>, ConversationView)>,
) -> StepView {
    match conversation {
        Some((id, record)) => StepView {
            state: CreationView::StoringConversation(reply),
            action: ActionView::StoreConversation(id, record),
        },
        None => answered(reply),
    }
}

/// The step from a completed response.
pub open spec fn step_to_write(done: CompletionView) -> StepView {
    match done.record {
        Some((id, record)) => StepView {
            state: CreationView::StoringResponse(done.reply, done.conversation),
            action: ActionView::StoreResponse(id, record),
        },
        None => step_to_write_conversation(done.reply, done.conversation),
    }
}

/// The reply to a failed generation.
pub open spec fn failed_generation(failed: GenerationFailureView) -> ReplyView {
    match failed.cause {
        Some(LLMErrorView::Busy) => failure(503, failed.message),
        Some(LLMErrorView::OutputTokensExceedContext(message)) => failure(400, message),
        _ => failure(500, failed.message),
    }
}

/// The job that a plan is queued as.
pub open spec fn queued_job(plan: PlanView, ids: IdSource, now: u64) -> JobView {
    JobView { id: ids.id("resp_"@, 0), created_at: now, plan }
}

/// The step from a store with room.
pub open spec fn step_with_room(plan: PlanView, ids: IdSource, now: u64) -> StepView {
    if plan.background {
        let job = queued_job(plan, ids, now);
        let queued = bare_object(job, "queued"@);
        StepView {
            state: CreationView::Queueing(job, success(queued)),
            action: ActionView::StoreResponse(job.id, job_record(job, queued)),
        }
    } else {
        StepView { state: CreationView::Generating(plan), action: ActionView::Generate }
    }
}

/// The wording for a response that could not be stored.
pub open spec fn response_unwritten(error: Seq<char>) -> Seq<char> {
    "failed to store the response: "@ + error
}

/// The wording for a full store.
pub open spec fn store_full(limit: nat) -> Seq<char> {
    "the response storage limit of "@ + decimal(limit) + " is reached"@
}

/// The identifier, or the empty text.
pub open spec fn id_or_empty(id: Option<Seq<char>>) -> Seq<char> {
    match id {
        Some(id) => id,
        None => Seq::empty(),
    }
}

/// The creation waits for such an event.
pub open spec fn awaits(state: CreationView, event: EventView) -> bool {
    match state {
        CreationView::Preparing(_) => event is Grammars,
        CreationView::ReadingPrevious(_, _) => event is Previous,
        CreationView::ReadingConversation(_, _, _) => event is Conversation,
        CreationView::MakingRoom(_) => event is Room,
        CreationView::Generating(_) => event is Generated || event is GenerationFailed,
        CreationView::StoringResponse(_, _) => event is ResponseStored,
        CreationView::Queueing(_, _) => event is ResponseStored,
        CreationView::StoringConversation(_) => event is ConversationStored,
        CreationView::Finished => false,
    }
}

/// The step of a creation for an event.
#[verifier::opaque]
pub open spec fn step_of(
    settings: SettingsView,
    ids: IdSource,
    now: u64,
    state: CreationView,
    event: EventView,
) -> StepView {
    match (state, event) {
        (CreationView::Preparing(request), EventView::Grammars(grammars)) => match validated(
            request,
            settings.model,
            settings.profile,
            grammars,
        ) {
            Err((status, message)) => answered(failure(status, message)),
            Ok(prepared) => step_to_previous(settings, request, prepared),
        },
        (CreationView::ReadingPrevious(request, prepared), EventView::Previous(loaded)) => match loaded {
            Err(error) => answered(failure(500, store_unreadable(error))),
            Ok(None) => answered(failure(404, no_response(id_or_empty(request.previous_response_id)))),
            Ok(Some(previous)) => step_to_conversation(settings, request, prepared, Some(previous)),
        },
        (
            CreationView::ReadingConversation(request, prepared, previous),
            EventView::Conversation(loaded),
        ) => match loaded {
            Ok(Some(record)) => step_to_plan(settings, request, prepared, previous, Some(record)),
            _ => answered(missing_reply(id_or_empty(request.conversation), loaded)),
        },
        (CreationView::MakingRoom(plan), EventView::Room(room)) => match room {
            Ok(true) => step_with_room(plan, ids, now),
            Ok(false) => answered(failure(507, store_full(settings.max_stored_responses))),
            Err(error) => answered(
                failure(500, "failed to prepare the response store: "@ + error),
            ),
        },
        (CreationView::Generating(plan), EventView::Generated(text, trace, usage)) => match turn_of(
            plan.tools,
            plan.json_required,
            text,
        ) {
            Ok(turn) => step_to_write(completion(plan, ids, now, turn, trace, usage)),
            Err(message) => answered(failure(500, message)),
        },
        (CreationView::Generating(_), EventView::GenerationFailed(failed)) => answered(
            failed_generation(failed),
        ),
        (
            CreationView::StoringResponse(reply, conversation),
            EventView::ResponseStored(stored),
        ) => match stored {
            Ok(_) => step_to_write_conversation(reply, conversation),
            Err(error) => answered(failure(500, response_unwritten(error))),
        },
        (CreationView::StoringConversation(reply), EventView::ConversationStored(stored)) => match stored {
            Ok(_) => answered(reply),
            Err(error) => answered(failure(500, conversation_unwritten(error))),
        },
        (CreationView::Queueing(job, reply), EventView::ResponseStored(stored)) => match stored {
            Ok(_) => StepView {
                state: CreationView::Finished,
                action: ActionView::StartJob(job, reply),
            },
            Err(error) => answered(failure(500, response_unwritten(error))),
        },
        _ => answered(failure(500, "unexpected event"@)),
    }
}

/// The source of the identifiers after a step.
pub open spec fn ids_after_step(ids: IdSource, state: CreationView, event: EventView) -> IdSource {
    match (state, event) {
        (CreationView::MakingRoom(plan), EventView::Room(Ok(true))) => if plan.background {
            ids.after(1)
        } else {
            ids
        },
        (CreationView::Generating(plan), EventView::Generated(text, trace, _)) => match turn_of(
            plan.tools,
            plan.json_required,
            text,
        ) {
            Ok(turn) => completion_ids(plan, ids, turn, trace),
            Err(_) => ids,
        },
        _ => ids,
    }
}

/// The step that was taken is the one that the contract speaks of.
pub open spec fn is_step(taken: (Creation, CreationAction), step: StepView) -> bool {
    taken.0@ == step.state && taken.1@ == step.action
}

fn answer(reply: Reply) -> (taken: (Creation, CreationAction))
    ensures
        is_step(taken, answered(reply@)),
{
    (Creation::Finished, CreationAction::Answer(reply))
}

/// Begins the creation of a response: reads the body and checks the credential.
/// `body` is the body, or the status and the message of the failure to receive
/// it.
pub fn begin_creation(
    body: Result<Vec<u8>, (u16, String)>,
    api_key: &str,
    authorization: Option<&str>,
    profile: ResponsesApi,
) -> (taken: (Creation, CreationAction))
    ensures
        is_step(
            taken,
            match body {
                Ok(bytes) => begun(
                    authorized(
                        read_body(bytes@, profile),
                        api_key@,
                        authorization.deep_view(),
                    ),
                ),
                Err((status, message)) => answered(
                    failure(status, "invalid request body: "@ + message@),
                ),
            },
        ),
{
    let bytes = match body {
        Ok(bytes) => bytes,
        Err((status, message)) => {
            return answer(extractor_error(status, message.as_str()));
        },
    };
    match parse_and_authorize(bytes.as_slice(), api_key, authorization, profile) {
        Err((status, message)) => answer(error_json(status, message)),
        Ok(request) => {
            let schemas = grammar_schemas(&request);
            (Creation::Preparing(request), CreationAction::MakeGrammars(schemas))
        },
    }
}

fn go_on_to_plan(
    settings: &CreateSettings,
    request: CreateRequest,
    prepared: PreparedPrompt,
    previous: Option<StoredResponse>,
    conversation: Option<ConversationRecord>,
) -> (taken: (Creation, CreationAction))
    ensures
        is_step(
            taken,
            step_to_plan(
                settings@,
                request@,
                prepared@,
                held_response(previous),
                held_conversation(conversation),
            ),
        ),
{
    match plan_generation(settings, request, prepared, previous, conversation) {
        Err(reply) => answer(reply),
        Ok(plan) => if plan.background || plan.store {
            (Creation::MakingRoom(plan), CreationAction::MakeRoom)
        } else {
            (Creation::Generating(plan), CreationAction::Generate)
        },
    }
}

fn go_on_to_conversation(
    settings: &CreateSettings,
    request: CreateRequest,
    prepared: PreparedPrompt,
    previous: Option<StoredResponse>,
) -> (taken: (Creation, CreationAction))
    ensures
        is_step(
            taken,
            step_to_conversation(settings@, request@, prepared@, held_response(previous)),
        ),
{
    match clone_text(&request.conversation) {
        Some(id) => (
            Creation::ReadingConversation(request, prepared, previous),
            CreationAction::ReadConversation(id),
        ),
        None => go_on_to_plan(settings, request, prepared, previous, None),
    }
}

fn go_on_to_previous(
    settings: &CreateSettings,
    request: CreateRequest,
    prepared: PreparedPrompt,
) -> (taken: (Creation, CreationAction))
    ensures
        is_step(taken, step_to_previous(settings@, request@, prepared@)),
{
    match clone_text(&request.previous_response_id) {
        Some(id) => (
            Creation::ReadingPrevious(request, prepared),
            CreationAction::ReadResponse(id),
        ),
        None => go_on_to_conversation(settings, request, prepared, None),
    }
}

fn go_on_to_write_conversation(
    reply: Reply,
    conversation: Option<(String, ConversationRecord)>,
) -> (taken: (Creation, CreationAction))
    ensures
        is_step(taken, step_to_write_conversation(reply@, named_conversation(conversation))),
{
    match conversation {
        Some((id, record)) => (
            Creation::StoringConversation(reply),
            CreationAction::StoreConversation(id, record),
        ),
        None => answer(reply),
    }
}

fn go_on_to_write(done: Completion) -> (taken: (Creation, CreationAction))
    ensures
        is_step(taken, step_to_write(done@)),
{
    match done.record {
        Some((id, record)) => (
            Creation::StoringResponse(done.reply, done.conversation),
            CreationAction::StoreResponse(id, record),
        ),
        None => go_on_to_write_conversation(done.reply, done.conversation),
    }
}

/// The reply to a failed generation: 503 for a busy server, 400 for an output that
/// does not fit the context, otherwise 500.
pub fn generation_error(failed: GenerationFailure) -> (reply: Reply)
    ensures
        reply@ == failed_generation(failed@),
{
    match failed.cause {
        Some(LLMError::Busy) => error_json(503, failed.message),
        Some(LLMError::OutputTokensExceedContext(message)) => error_json(400, message),
        _ => error_json(500, failed.message),
    }
}

/// The response that a request continues, or the reply where it could not be used.
/// A request without its identifier continues none; otherwise `loaded` is what the
/// read came to.
pub fn resolve_previous(
    previous_response_id: Option<&str>,
    loaded: Result<Loaded<StoredResponse>, String>,
) -> (resolved: Result<Option<StoredResponse>, Reply>)
    ensures
        match previous_response_id {
            None => resolved == Ok::<Option<StoredResponse>, Reply>(None),
            Some(id) => match loaded_response_view(loaded) {
                Ok(Some(record)) => {
                    &&& resolved matches Ok(Some(previous))
                    &&& previous@ == record
                },
                Ok(None) => resolved is Err && resolved->Err_0@ == failure(404, no_response(id@)),
                Err(error) => resolved is Err && resolved->Err_0@ == failure(
                    500,
                    store_unreadable(error),
                ),
            },
        },
{
    let id = match previous_response_id {
        Some(id) => id,
        None => {
            return Ok(None);
        },
    };
    match loaded {
        Ok(Loaded::Live(record)) => Ok(Some(record)),
        Ok(_) => Err(not_found(id)),
        Err(error) => Err(
            error_json(
                500,
                "failed to read the response store: ".to_owned().concat(error.as_str()),
            ),
        ),
    }
}

/// Takes the next step of a creation: given what came of the outside work it was
/// waiting for, where it then stands and what comes next. An event that it was not
/// waiting for ends it with an error.
pub fn create_response(
    settings: &CreateSettings,
    ids: &mut IdSource,
    now: u64,
    state: Creation,
    event: CreationEvent,
) -> (taken: (Creation, CreationAction))
    requires
        event@ matches EventView::Generated(_, _, usage) ==> usage.fits(),
    ensures
        is_step(taken, step_of(settings@, *old(ids), now, state@, event@)),
        *final(ids) == ids_after_step(*old(ids), state@, event@),
{
    proof {
        reveal(step_of);
    }
    match (state, event) {
        (Creation::Preparing(request), CreationEvent::Grammars(grammars)) => {
            match validate_request(&request, settings.model.as_str(), settings.profile, grammars) {
                Err((status, message)) => answer(error_json(status, message)),
                Ok(prepared) => go_on_to_previous(settings, request, prepared),
            }
        },
        (Creation::ReadingPrevious(request, prepared), CreationEvent::Previous(loaded)) => {
            let id = match clone_text(&request.previous_response_id) {
                Some(id) => id,
                None => String::new(),
            };
            match resolve_previous(Some(id.as_str()), loaded) {
                Err(reply) => answer(reply),
                Ok(previous) => go_on_to_conversation(settings, request, prepared, previous),
            }
        },
        (
            Creation::ReadingConversation(request, prepared, previous),
            CreationEvent::Conversation(loaded),
        ) => {
            let id = match clone_text(&request.conversation) {
                Some(id) => id,
                None => String::new(),
            };
            match require_conversation(id.as_str(), loaded) {
                Err(reply) => answer(reply),
                Ok(record) => go_on_to_plan(settings, request, prepared, previous, Some(record)),
            }
        },
        (Creation::MakingRoom(plan), CreationEvent::Room(room)) => match room {
            Err(error) => answer(
                error_json(
                    500,
                    "failed to prepare the response store: ".to_owned().concat(error.as_str()),
                ),
            ),
            Ok(fits) => {
                if !fits {
                    return answer(
                        error_json(507, storage_full_message(settings.max_stored_responses)),
                    );
                }
                if plan.background {
                    let (job, record) = queue_response(ids, now, plan);
                    let reply = ok_json(record.response.clone());
                    let id = job.id.clone();
                    (Creation::Queueing(job, reply), CreationAction::StoreResponse(id, record))
                } else {
                    (Creation::Generating(plan), CreationAction::Generate)
                }
            },
        },
        (Creation::Generating(plan), CreationEvent::Generation(outcome)) => match outcome {
            Err(failed) => answer(generation_error(failed)),
            Ok(generated) => match generated_turn(
                &plan.tools,
                plan.json_required,
                generated.text.as_str(),
            ) {
                Err(message) => answer(error_json(500, message)),
                Ok(turn) => {
                    let done = complete_response(
                        plan,
                        ids,
                        now,
                        turn,
                        generated.trace.as_str(),
                        &generated.usage,
                    );
                    go_on_to_write(done)
                },
            },
        },
        (
            Creation::StoringResponse(reply, conversation),
            CreationEvent::ResponseStored(stored),
        ) => match stored {
            Ok(_) => go_on_to_write_conversation(reply, conversation),
            Err(error) => answer(
                error_json(
                    500,
                    "failed to store the response: ".to_owned().concat(error.as_str()),
                ),
            ),
        },
        (Creation::StoringConversation(reply), CreationEvent::ConversationStored(stored)) => match stored {
            Ok(_) => answer(reply),
            Err(error) => answer(write_error(error.as_str())),
        },
        (Creation::Queueing(job, reply), CreationEvent::ResponseStored(stored)) => match stored {
            Ok(_) => (Creation::Finished, CreationAction::StartJob(job, reply)),
            Err(error) => answer(
                error_json(
                    500,
                    "failed to store the response: ".to_owned().concat(error.as_str()),
                ),
            ),
        },
        _ => answer(error_json(500, "unexpected event".to_owned())),
    }
}

/// How far a creation has come. Each step brings it further.
pub open spec fn progress(state: CreationView) -> nat {
    match state {
        CreationView::Preparing(_) => 0,
        CreationView::ReadingPrevious(_, _) => 1,
        CreationView::ReadingConversation(_, _, _) => 2,
        CreationView::MakingRoom(_) => 3,
        CreationView::Generating(_) => 4,
        CreationView::Queueing(_, _) => 4,
        CreationView::StoringResponse(_, _) => 5,
        CreationView::StoringConversation(_) => 6,
        CreationView::Finished => 7,
    }
}

/// Every step of a creation leads further and never back, so it ends, and there is
/// at most one generation.
pub proof fn law_creation_advances(
    settings: SettingsView,
    ids: IdSource,
    now: u64,
    state: CreationView,
    event: EventView,
)
    requires
        awaits(state, event),
    ensures
        progress(step_of(settings, ids, now, state, event).state) > progress(state),
{
    reveal(step_of);
}

/// A creation generates only with a plan in hand, and where the response is to be
/// stored only after the store had room for it. So a request that is refused never
/// reaches the model.
pub proof fn law_generation_comes_after_the_checks(
    settings: SettingsView,
    ids: IdSource,
    now: u64,
    state: CreationView,
    event: EventView,
)
    requires
        awaits(state, event),
        step_of(settings, ids, now, state, event).action is Generate,
    ensures
        step_of(settings, ids, now, state, event).state is Generating,
        ({
            let plan = step_of(settings, ids, now, state, event).state->Generating_0;
            plan.store || plan.background ==> event == EventView::Room(Ok(true))
        }),
{
    reveal(step_of);
}

/// A step that ends the creation with a success.
pub open spec fn succeeds(step: StepView) -> bool {
    step.action matches ActionView::Answer(reply) && reply.status == 200
}

proof fn lemma_planning_does_not_succeed(
    settings: SettingsView,
    request: CreateRequestView,
    prepared: PreparedView,
    previous: Option<StoredResponseView>,
    conversation: Option<ConversationView>,
)
    ensures
        !succeeds(step_to_plan(settings, request, prepared, previous, conversation)),
        conversation is None ==> !succeeds(
            step_to_conversation(settings, request, prepared, previous),
        ),
        conversation is None && previous is None ==> !succeeds(
            step_to_previous(settings, request, prepared),
        ),
{
}

proof fn lemma_preparing_does_not_succeed(
    settings: SettingsView,
    ids: IdSource,
    now: u64,
    request: CreateRequestView,
    grammars: GrammarsView,
)
    ensures
        !succeeds(
            step_of(
                settings,
                ids,
                now,
                CreationView::Preparing(request),
                EventView::Grammars(grammars),
            ),
        ),
{
    reveal(step_of);
    crate::responses::law_validation_refuses_with_400(
        request,
        settings.model,
        settings.profile,
        grammars,
    );
    if let Ok(prepared) = validated(request, settings.model, settings.profile, grammars) {
        lemma_planning_does_not_succeed(settings, request, prepared, None, None);
    }
}

proof fn lemma_reading_does_not_succeed(
    settings: SettingsView,
    ids: IdSource,
    now: u64,
    state: CreationView,
    event: EventView,
)
    requires
        awaits(state, event),
        state is ReadingPrevious || state is ReadingConversation || state is MakingRoom
            || state is Queueing,
    ensures
        !succeeds(step_of(settings, ids, now, state, event)),
{
    reveal(step_of);
    match (state, event) {
        (
            CreationView::ReadingPrevious(request, prepared),
            EventView::Previous(Ok(Some(previous))),
        ) => {
            lemma_planning_does_not_succeed(settings, request, prepared, Some(previous), None);
        },
        (
            CreationView::ReadingConversation(request, prepared, previous),
            EventView::Conversation(Ok(Some(record))),
        ) => {
            lemma_planning_does_not_succeed(settings, request, prepared, previous, Some(record));
        },
        _ => {},
    }
}

proof fn lemma_unstored_success(
    settings: SettingsView,
    ids: IdSource,
    now: u64,
    plan: PlanView,
    event: EventView,
)
    requires
        event is Generated || event is GenerationFailed,
        succeeds(step_of(settings, ids, now, CreationView::Generating(plan), event)),
    ensures
        !plan.store && plan.conversation is None,
{
    reveal(step_of);
}

proof fn lemma_written_success(
    settings: SettingsView,
    ids: IdSource,
    now: u64,
    state: CreationView,
    event: EventView,
)
    requires
        awaits(state, event),
        state is StoringResponse || state is StoringConversation,
        succeeds(step_of(settings, ids, now, state, event)),
    ensures
        match state {
            CreationView::StoringResponse(_, conversation) => (event matches EventView::ResponseStored(
                Ok(_),
            )) && conversation is None,
            _ => event matches EventView::ConversationStored(Ok(_)),
        },
{
    reveal(step_of);
}

/// A success is answered only after everything it stores was written: a failed
/// write is never answered with one.
pub proof fn law_success_comes_after_the_writes(
    settings: SettingsView,
    ids: IdSource,
    now: u64,
    state: CreationView,
    event: EventView,
)
    requires
        awaits(state, event),
        succeeds(step_of(settings, ids, now, state, event)),
    ensures
        match state {
            CreationView::Generating(plan) => !plan.store && plan.conversation is None,
            CreationView::StoringResponse(_, conversation) => (event matches EventView::ResponseStored(
                Ok(_),
            )) && conversation is None,
            CreationView::StoringConversation(_) => event matches EventView::ConversationStored(Ok(_)),
            _ => false,
        },
{
    match state {
        CreationView::Preparing(request) => {
            lemma_preparing_does_not_succeed(settings, ids, now, request, event->Grammars_0);
        },
        CreationView::Generating(plan) => {
            lemma_unstored_success(settings, ids, now, plan, event);
        },
        CreationView::StoringResponse(_, _) => {
            lemma_written_success(settings, ids, now, state, event);
        },
        CreationView::StoringConversation(_) => {
            lemma_written_success(settings, ids, now, state, event);
        },
        _ => {
            lemma_reading_does_not_succeed(settings, ids, now, state, event);
        },
    }
}

/// A completed response carries the usage of its generation exactly, and its
/// record holds the object that was returned.
pub proof fn law_record_is_what_was_returned(
    plan: PlanView,
    ids: IdSource,
    now: u64,
    turn: ModelTurnView,
    trace: Seq<char>,
    usage: TokenUsage,
)
    ensures
        ({
            let done = completion(plan, ids, now, turn, trace, usage);
            let object = completed(plan, ids, now, turn, trace, usage).object;
            &&& done.record is Some <==> plan.store
            &&& done.record matches Some((id, record)) ==> {
                &&& text_field(record.response, "id"@) == Some(id)
                &&& field(record.response, "usage"@) == Some(usage_object(usage))
                &&& record.input_items == plan.input_items
                &&& !plan.streaming ==> done.reply == success(record.response)
            }
        }),
{
    let finished = completed(plan, ids, now, turn, trace, usage);
    lemma_response_fields(
        head_of(plan, finished.id, now),
        "completed"@,
        finished.output,
        usage_object(usage),
    );
}

/// A response of a conversation adds to it exactly what the request put in and
/// what the response shows as its output, behind what was there.
pub proof fn law_conversation_grows_by_the_turn(
    plan: PlanView,
    ids: IdSource,
    now: u64,
    turn: ModelTurnView,
    trace: Seq<char>,
    usage: TokenUsage,
)
    requires
        plan.conversation is Some,
    ensures
        ({
            let done = completion(plan, ids, now, turn, trace, usage);
            let object = completed(plan, ids, now, turn, trace, usage).object;
            let (named, before) = plan.conversation->0;
            &&& done.conversation matches Some((id, after)) && {
                &&& id == named
                &&& field(object, "output"@) matches Some(JsonView::Array(output)) && after.items
                    == before.items + plan.input_items + output
                &&& after.id == before.id
                &&& after.metadata == before.metadata
            }
        }),
{
    let finished = completed(plan, ids, now, turn, trace, usage);
    lemma_response_fields(
        head_of(plan, finished.id, now),
        "completed"@,
        finished.output,
        usage_object(usage),
    );
}

/// Every completed response names the loaded model and the conversation of its
/// request.
pub proof fn law_response_names_the_loaded_model(
    settings: SettingsView,
    request: CreateRequestView,
    prepared: PreparedView,
    previous: Option<StoredResponseView>,
    conversation: Option<ConversationView>,
    ids: IdSource,
    now: u64,
    turn: ModelTurnView,
    trace: Seq<char>,
    usage: TokenUsage,
)
    requires
        planned(settings, request, prepared, previous, conversation) is Ok,
    ensures
        ({
            let plan = planned(settings, request, prepared, previous, conversation)->Ok_0;
            let done = completed(plan, ids, now, turn, trace, usage);
            &&& text_field(done.object, "model"@) == Some(settings.model)
            &&& text_field(done.object, "id"@) == Some(done.id)
            &&& text_field(done.object, "status"@) == Some("completed"@)
        }),
{
    let plan = planned(settings, request, prepared, previous, conversation)->Ok_0;
    let done = completed(plan, ids, now, turn, trace, usage);
    lemma_response_fields(
        head_of(plan, done.id, now),
        "completed"@,
        done.output,
        usage_object(usage),
    );
}

/// A response shows a reasoning item only where the operator keeps traces, so no
/// trace is exposed by default.
pub proof fn law_no_trace_by_default(
    settings: SettingsView,
    request: CreateRequestView,
    prepared: PreparedView,
    previous: Option<StoredResponseView>,
    conversation: Option<ConversationView>,
    ids: IdSource,
    trace: Seq<char>,
)
    requires
        planned(settings, request, prepared, previous, conversation) is Ok,
        settings.reasoning_trace != Some(ReasoningTrace::Verbatim),
    ensures
        trace_item(
            planned(settings, request, prepared, previous, conversation)->Ok_0,
            ids,
            trace,
        ) is None,
{
}

/// The plan carries what was asked for and what was prepared: the prompt and the items
/// to store, the grammar of the tools where tools are offered and of the format
/// otherwise, the generation, the tools, the metadata, the conversation, and whether the
/// response is streamed, stored or made in the background. It is stored unless the
/// request says otherwise.
pub proof fn law_plan_carries_the_request(
    settings: SettingsView,
    request: CreateRequestView,
    prepared: PreparedView,
    previous: Option<StoredResponseView>,
    conversation: Option<ConversationView>,
)
    ensures
        planned(settings, request, prepared, previous, conversation) matches Ok(plan) ==> {
            let prompt = effective(request, prepared, previous, conversation);
            &&& prompt is Ok
            &&& (plan.system, plan.user) == (prompt->Ok_0.system, prompt->Ok_0.user)
            &&& plan.input_items == prompt->Ok_0.input_items
            &&& plan.model == settings.model
            &&& plan.grammar == if prepared.tools.offers_tools() {
                prepared.tools.grammar
            } else {
                prepared.format.grammar
            }
            &&& plan.generation == prepared.generation
            &&& plan.reasoning == prepared.reasoning
            &&& plan.tools == prepared.tools
            &&& plan.json_required == prepared.format.json_required
            &&& plan.metadata == request.metadata
            &&& plan.streaming == (request.stream == Some(true))
            &&& plan.store == (request.store != Some(false))
            &&& plan.background == (request.background == Some(true))
            &&& request.conversation is Some && conversation is Some ==> plan.conversation == Some(
                (request.conversation->0, conversation->0),
            )
            &&& request.conversation is None ==> plan.conversation is None
            &&& plan.controls.temperature == prepared.generation_echo.temperature
            &&& plan.controls.top_p == prepared.generation_echo.top_p
            &&& plan.controls.max_output_tokens == prepared.generation_echo.max_output_tokens
            &&& plan.controls.verbosity is Some ==> plan.controls.verbosity == Some(
                prepared.verbosity.text(),
            )
            &&& (plan.controls.verbosity is Some) == (request.text is Some
                && request.text->0.verbosity is Some)
            &&& plan.reasoning_trace is Verbatim == (settings.reasoning_trace == Some(
                ReasoningTrace::Verbatim,
            ))
            &&& plan.reasoning_part_type == "reasoning_text"@
        },
{
}

/// A conversation is refused exactly where what is in it, what the request adds and what
/// the response may add are more items than the limit; the limit zero is none. What the
/// response may add is one item, or one for each tool where calls are parallel.
pub proof fn law_full_conversation_is_refused(
    settings: SettingsView,
    request: CreateRequestView,
    prepared: PreparedView,
    previous: Option<StoredResponseView>,
    conversation: ConversationView,
)
    requires
        effective(request, prepared, previous, Some(conversation)) is Ok,
    ensures
        ({
            let adds = effective(request, prepared, previous, Some(conversation))->Ok_0.input_items.len();
            let tools = prepared.tools;
            let may_add = if tools.tools.len() > 0 && !(tools.choice is Never)
                && tools.parallel_tool_calls {
                tools.tools.len()
            } else {
                1
            };
            let limit = settings.max_conversation_items;
            let plan = planned(settings, request, prepared, previous, Some(conversation));
            &&& (plan is Ok) == (limit == 0 || conversation.items.len() + adds + may_add <= limit)
            &&& plan matches Err(reply) ==> reply.status == 400
        }),
        planned(settings, request, prepared, None, None) is Ok,
{
}

/// What a creation asks for next: the response that the request continues, by the
/// identifier it gives, then the conversation, by its own, and what was read goes into
/// the plan. Where a response was not found the answer is 404, where the store cannot be
/// read 500.
pub proof fn law_creation_reads_what_is_named(
    settings: SettingsView,
    ids: IdSource,
    now: u64,
    request: CreateRequestView,
    prepared: PreparedView,
    grammars: GrammarsView,
    previous: Option<StoredResponseView>,
    record: StoredResponseView,
    conversation: ConversationView,
    error: Seq<char>,
)
    ensures
        validated(request, settings.model, settings.profile, grammars) matches Ok(ready) ==> {
            let step = step_of(
                settings,
                ids,
                now,
                CreationView::Preparing(request),
                EventView::Grammars(grammars),
            );
            &&& request.previous_response_id matches Some(id) ==> step.action
                == ActionView::ReadResponse(id) && step.state == CreationView::ReadingPrevious(
                request,
                ready,
            )
            &&& request.conversation matches Some(id) ==> request.previous_response_id is None
                ==> step.action == ActionView::ReadConversation(id)
            &&& request.previous_response_id is None && request.conversation is None ==> step
                == step_to_plan(settings, request, ready, None, None)
        },
        validated(request, settings.model, settings.profile, grammars) matches Err(refused)
            ==> step_of(
            settings,
            ids,
            now,
            CreationView::Preparing(request),
            EventView::Grammars(grammars),
        ).action == ActionView::Answer(failure(refused.0, refused.1)),
        ({
            let reading = CreationView::ReadingPrevious(request, prepared);
            let found = step_of(settings, ids, now, reading, EventView::Previous(Ok(Some(record))));
            let missing = step_of(settings, ids, now, reading, EventView::Previous(Ok(None)));
            let failed = step_of(settings, ids, now, reading, EventView::Previous(Err(error)));
            &&& request.conversation is None ==> found == step_to_plan(
                settings,
                request,
                prepared,
                Some(record),
                None,
            )
            &&& missing.action matches ActionView::Answer(reply) && reply.status == 404
            &&& failed.action matches ActionView::Answer(reply) && reply.status == 500
        }),
        ({
            let reading = CreationView::ReadingConversation(request, prepared, previous);
            let found = step_of(
                settings,
                ids,
                now,
                reading,
                EventView::Conversation(Ok(Some(conversation))),
            );
            let missing = step_of(settings, ids, now, reading, EventView::Conversation(Ok(None)));
            let failed = step_of(settings, ids, now, reading, EventView::Conversation(Err(error)));
            &&& found == step_to_plan(settings, request, prepared, previous, Some(conversation))
            &&& missing.action matches ActionView::Answer(reply) && reply.status == 404
            &&& failed.action matches ActionView::Answer(reply) && reply.status == 500
        }),
{
    reveal(step_of);
}

/// How a creation ends that cannot go on: a full store is answered with 507, a busy
/// server with 503, an output that does not fit the context with 400, and any other
/// failure, of the generation as of the store, with 500. A generated text that is no
/// turn is a failure too.
pub proof fn law_failures_are_answered(
    settings: SettingsView,
    ids: IdSource,
    now: u64,
    plan: PlanView,
    failed: GenerationFailureView,
    text: Seq<char>,
    trace: Seq<char>,
    usage: TokenUsage,
    reply: ReplyView,
    conversation: Option<(Seq<char>, ConversationView)>,
    job: JobView,
    error: Seq<char>,
)
    ensures
        ({
            let room = CreationView::MakingRoom(plan);
            let generating = CreationView::Generating(plan);
            let full = step_of(settings, ids, now, room, EventView::Room(Ok(false)));
            let broken = step_of(settings, ids, now, room, EventView::Room(Err(error)));
            let lost = step_of(settings, ids, now, generating, EventView::GenerationFailed(failed));
            &&& full.action matches ActionView::Answer(answer) && answer.status == 507
            &&& broken.action matches ActionView::Answer(answer) && answer.status == 500
            &&& lost.action matches ActionView::Answer(answer) && answer.status
                == match failed.cause {
                Some(LLMErrorView::Busy) => 503u16,
                Some(LLMErrorView::OutputTokensExceedContext(_)) => 400u16,
                _ => 500u16,
            }
            &&& turn_of(plan.tools, plan.json_required, text) is Err ==> (step_of(
                settings,
                ids,
                now,
                generating,
                EventView::Generated(text, trace, usage),
            ).action matches ActionView::Answer(answer) && answer.status == 500)
            &&& step_of(
                settings,
                ids,
                now,
                CreationView::StoringResponse(reply, conversation),
                EventView::ResponseStored(Err(error)),
            ).action matches ActionView::Answer(answer) && answer.status == 500
            &&& step_of(
                settings,
                ids,
                now,
                CreationView::StoringConversation(reply),
                EventView::ConversationStored(Err(error)),
            ).action matches ActionView::Answer(answer) && answer.status == 500
            &&& step_of(
                settings,
                ids,
                now,
                CreationView::Queueing(job, reply),
                EventView::ResponseStored(Err(error)),
            ).action matches ActionView::Answer(answer) && answer.status == 500
        }),
{
    reveal(step_of);
}

/// What a creation stores: the completed response under the identifier that it shows,
/// then the conversation under its own, and the reply that was made is the one that is
/// sent at the end.
pub proof fn law_creation_stores_what_it_made(
    settings: SettingsView,
    ids: IdSource,
    now: u64,
    plan: PlanView,
    text: Seq<char>,
    trace: Seq<char>,
    usage: TokenUsage,
    reply: ReplyView,
    id: Seq<char>,
    conversation: ConversationView,
)
    requires
        turn_of(plan.tools, plan.json_required, text) is Ok,
    ensures
        ({
            let turn = turn_of(plan.tools, plan.json_required, text)->Ok_0;
            let made = completed(plan, ids, now, turn, trace, usage);
            let grown = match plan.conversation {
                Some((name, before)) => Some(
                    (
                        name,
                        ConversationView {
                            items: before.items + plan.input_items + made.output,
                            ..before
                        },
                    ),
                ),
                None => None,
            };
            let step = step_of(
                settings,
                ids,
                now,
                CreationView::Generating(plan),
                EventView::Generated(text, trace, usage),
            );
            &&& plan.store ==> step == (StepView {
                state: CreationView::StoringResponse(made.reply, grown),
                action: ActionView::StoreResponse(
                    made.id,
                    StoredResponseView { response: made.object, input_items: plan.input_items },
                ),
            })
            &&& grown matches Some((name, after)) ==> !plan.store ==> step == (StepView {
                state: CreationView::StoringConversation(made.reply),
                action: ActionView::StoreConversation(name, after),
            })
            &&& !plan.store && plan.conversation is None ==> step.action == ActionView::Answer(
                made.reply,
            )
        }),
        step_of(
            settings,
            ids,
            now,
            CreationView::StoringResponse(reply, Some((id, conversation))),
            EventView::ResponseStored(Ok(())),
        ) == (StepView {
            state: CreationView::StoringConversation(reply),
            action: ActionView::StoreConversation(id, conversation),
        }),
        step_of(
            settings,
            ids,
            now,
            CreationView::StoringResponse(reply, None),
            EventView::ResponseStored(Ok(())),
        ).action == ActionView::Answer(reply),
        step_of(
            settings,
            ids,
            now,
            CreationView::StoringConversation(reply),
            EventView::ConversationStored(Ok(())),
        ).action == ActionView::Answer(reply),
{
    reveal(step_of);
}

/// A response in the background is stored as queued, without output and usage, under the
/// identifier it will keep, answered as it was stored, and then its job is started with
/// the same plan. Any other response is generated at once.
pub proof fn law_background_response_is_queued(
    settings: SettingsView,
    ids: IdSource,
    now: u64,
    plan: PlanView,
)
    ensures
        ({
            let step = step_of(
                settings,
                ids,
                now,
                CreationView::MakingRoom(plan),
                EventView::Room(Ok(true)),
            );
            &&& !plan.background ==> step == (StepView {
                state: CreationView::Generating(plan),
                action: ActionView::Generate,
            })
            &&& plan.background ==> {
                &&& step.state matches CreationView::Queueing(job, reply)
                &&& step.action matches ActionView::StoreResponse(id, record)
                &&& (job.plan, job.created_at, job.id) == (plan, now, id)
                &&& reply.status == 200
                &&& reply.body == ReplyBodyView::Json(record.response)
                &&& record.input_items == plan.input_items
                &&& text_field(record.response, "id"@) == Some(id)
                &&& text_field(record.response, "status"@) == Some("queued"@)
                &&& text_field(record.response, "model"@) == Some(plan.model)
                &&& field(record.response, "output"@) == Some(JsonView::Array(Seq::empty()))
                &&& field(record.response, "usage"@) == Some(JsonView::Null)
                &&& step_of(
                    settings,
                    ids,
                    now,
                    CreationView::Queueing(job, reply),
                    EventView::ResponseStored(Ok(())),
                ).action == ActionView::StartJob(job, reply)
            }
        }),
{
    reveal(step_of);
    let job = queued_job(plan, ids, now);
    lemma_response_fields(
        head_of(plan, job.id, now),
        "queued"@,
        Seq::empty(),
        JsonView::Null,
    );
}

/// The creation of a response begins with the grammars that its request needs, made
/// from the schemas of its tools and of its format, and a request that was not let in
/// is answered as it was refused.
pub proof fn law_creation_begins_with_the_grammars(
    request: CreateRequestView,
    status: u16,
    message: Seq<char>,
)
    ensures
        begun(Ok(request)).state == CreationView::Preparing(request),
        ({
            let format = match request.text {
                Some(text) => text.format,
                None => None,
            };
            begun(Ok(request)).action matches ActionView::MakeGrammars(tools, asked) && tools
                == schema_to_convert(
                request.tools,
                request.tool_choice,
                request.parallel_tool_calls,
            ) && asked == if format is Some {
                format_schema_text(format->0)
            } else {
                None
            }
        }),
        begun(Err((status, message))).action == ActionView::Answer(failure(status, message)),
{
}

/// A plan that is stored or runs in the background waits for room in the store; any
/// other is generated at once. A plan that was refused is answered so.
pub proof fn law_plan_waits_for_room(
    settings: SettingsView,
    request: CreateRequestView,
    prepared: PreparedView,
    previous: Option<StoredResponseView>,
    conversation: Option<ConversationView>,
)
    ensures
        ({
            let step = step_to_plan(settings, request, prepared, previous, conversation);
            match planned(settings, request, prepared, previous, conversation) {
                Ok(plan) => if plan.store || plan.background {
                    step.state == CreationView::MakingRoom(plan) && step.action is MakeRoom
                } else {
                    step.state == CreationView::Generating(plan) && step.action is Generate
                },
                Err(reply) => step.action == ActionView::Answer(reply) && step.state is Finished,
            }
        }),
{
}

/// The step ends the creation with this error.
pub open spec fn is_answered(step: StepView, status: u16, message: Seq<char>) -> bool {
    step == (StepView {
        state: CreationView::Finished,
        action: ActionView::Answer(failure(status, message)),
    })
}

/// What was not found is named in the answer.
pub proof fn law_missing_records_are_named(
    settings: SettingsView,
    ids: IdSource,
    now: u64,
    request: CreateRequestView,
    prepared: PreparedView,
    previous: Option<StoredResponseView>,
    id: Seq<char>,
)
    ensures
        request.previous_response_id == Some(id) ==> is_answered(
            step_of(
                settings,
                ids,
                now,
                CreationView::ReadingPrevious(request, prepared),
                EventView::Previous(Ok(None)),
            ),
            404,
            no_response(id),
        ),
        request.conversation == Some(id) ==> is_answered(
            step_of(
                settings,
                ids,
                now,
                CreationView::ReadingConversation(request, prepared, previous),
                EventView::Conversation(Ok(None)),
            ),
            404,
            crate::responses_conversations::no_conversation(id),
        ),
{
    reveal(step_of);
}

/// A generation that went wrong is answered with its own message, and so are a turn
/// that could not be read and a store without room.
pub proof fn law_failures_say_what_went_wrong(
    settings: SettingsView,
    ids: IdSource,
    now: u64,
    plan: PlanView,
    failed: GenerationFailureView,
    text: Seq<char>,
    trace: Seq<char>,
    usage: TokenUsage,
)
    ensures
        is_answered(
            step_of(
                settings,
                ids,
                now,
                CreationView::MakingRoom(plan),
                EventView::Room(Ok(false)),
            ),
            507,
            store_full(settings.max_stored_responses),
        ),
        ({
            let step = step_of(
                settings,
                ids,
                now,
                CreationView::Generating(plan),
                EventView::GenerationFailed(failed),
            );
            match failed.cause {
                Some(LLMErrorView::Busy) => is_answered(step, 503, failed.message),
                Some(LLMErrorView::OutputTokensExceedContext(message)) => is_answered(
                    step,
                    400,
                    message,
                ),
                _ => is_answered(step, 500, failed.message),
            }
        }),
        turn_of(plan.tools, plan.json_required, text) matches Err(message) ==> is_answered(
            step_of(
                settings,
                ids,
                now,
                CreationView::Generating(plan),
                EventView::Generated(text, trace, usage),
            ),
            500,
            message,
        ),
{
    reveal(step_of);
}

/// Identifiers are given out once: after a turn the source stands behind every
/// identifier that the turn took, one for the response, one for a trace that is shown,
/// one for a message and two for each call.
pub proof fn law_identifiers_are_given_out_once(
    plan: PlanView,
    ids: IdSource,
    turn: ModelTurnView,
    trace: Seq<char>,
)
    ensures
        ({
            let shown: nat = if plan.reasoning_trace is Verbatim && trace.len() > 0 {
                1
            } else {
                0
            };
            completion_ids(plan, ids, turn, trace) == match turn {
                ModelTurnView::Message(_) => ids.after(shown + 2),
                ModelTurnView::Calls(calls) => ids.after(shown + 1 + 2 * calls.len()),
            }
        }),
{
    let taken = 1 + items_ids(turn_output(turn));
    crate::responses_shape::lemma_after(ids, 1, taken);
    crate::responses_shape::lemma_after(ids, 0, taken);
}

} // verus!
