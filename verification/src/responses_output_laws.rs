//! What holds of what comes out: the text, the calls and the trace of a generation are
//! what the response shows, in its object as in its stream, beside what the request
//! asked for.

use vstd::prelude::*;

use crate::json::{field, text_field, unsigned, JsonView, NumberView};
use crate::llm::TokenUsage;
use crate::responses_background::{final_ids, job_record, JobOutcomeView, JobView};
use crate::responses_create::{
    completed,
    head_of,
    lemma_response_fields,
    turn_from,
    turn_of,
    PlanView,
};
use crate::responses_events::{
    call_events,
    can_replay,
    event_drafts,
    event_text,
    first_part_text,
    items_events,
    message_events,
    one_item_events,
    reasoning_events,
    rendered,
    response_events,
    stays,
    text_or_empty,
    EventDraft,
};
use crate::responses_http::ReplyBodyView;
use crate::responses_shape::{
    call_items,
    function_call,
    message,
    reasoning,
    response_object,
    text_part,
    usage_object,
    IdSource,
    ResponseHead,
};
use crate::responses_tools::{read_turn, ModelCallView, ModelTurnView, ToolRequestView};
use crate::text::{
    hexadecimal,
    law_trimming_takes_white_space_alone,
    lemma_hexadecimal_is_injective,
    trimmed,
    trimmed_start,
};

verus! {

proof fn lemma_item_words()
    ensures
        "id"@.len() == 2,
        "type"@.len() == 4 && "type"@[0] == 't' && "type"@[1] == 'y',
        "text"@.len() == 4 && "text"@[0] == 't' && "text"@[1] == 'e',
        "part"@.len() == 4 && "part"@[0] == 'p',
        "role"@.len() == 4 && "role"@[0] == 'r',
        "name"@.len() == 4 && "name"@[0] == 'n',
        "item"@.len() == 4 && "item"@[0] == 'i',
        "delta"@.len() == 5,
        "status"@.len() == 6,
        "content"@.len() == 7 && "content"@[0] == 'c' && "content"@[1] == 'o',
        "call_id"@.len() == 7 && "call_id"@[0] == 'c' && "call_id"@[1] == 'a',
        "item_id"@.len() == 7 && "item_id"@[0] == 'i',
        "summary"@.len() == 7 && "summary"@[0] == 's',
        "logprobs"@.len() == 8 && "logprobs"@[0] == 'l',
        "response"@.len() == 8 && "response"@[0] == 'r',
        "arguments"@.len() == 9,
        "annotations"@.len() == 11,
        "output_index"@.len() == 12,
        "content_index"@.len() == 13,
        "sequence_number"@.len() == 15,
        "encrypted_content"@.len() == 17,
        "message"@.len() == 7,
        "reasoning"@.len() == 9,
        "function_call"@.len() == 13,
{
    reveal_strlit("id");
    reveal_strlit("type");
    reveal_strlit("text");
    reveal_strlit("part");
    reveal_strlit("role");
    reveal_strlit("name");
    reveal_strlit("item");
    reveal_strlit("delta");
    reveal_strlit("status");
    reveal_strlit("content");
    reveal_strlit("call_id");
    reveal_strlit("item_id");
    reveal_strlit("summary");
    reveal_strlit("logprobs");
    reveal_strlit("response");
    reveal_strlit("arguments");
    reveal_strlit("annotations");
    reveal_strlit("output_index");
    reveal_strlit("content_index");
    reveal_strlit("sequence_number");
    reveal_strlit("encrypted_content");
    reveal_strlit("message");
    reveal_strlit("reasoning");
    reveal_strlit("function_call");
}

/// The item is a message of the assistant with this text and nothing else.
pub open spec fn shows_text(item: JsonView, text: Seq<char>) -> bool {
    &&& text_field(item, "type"@) == Some("message"@)
    &&& text_field(item, "role"@) == Some("assistant"@)
    &&& text_field(item, "status"@) == Some("completed"@)
    &&& text_field(item, "id"@) is Some
    &&& field(item, "content"@) matches Some(JsonView::Array(parts))
    &&& parts.len() == 1
    &&& text_field(parts[0], "type"@) == Some("output_text"@)
    &&& text_field(parts[0], "text"@) == Some(text)
}

/// The item is a call of a function with these arguments.
pub open spec fn shows_call(item: JsonView, call: ModelCallView) -> bool {
    &&& text_field(item, "type"@) == Some("function_call"@)
    &&& text_field(item, "status"@) == Some("completed"@)
    &&& text_field(item, "id"@) is Some
    &&& text_field(item, "call_id"@) is Some
    &&& text_field(item, "name"@) == Some(call.name)
    &&& text_field(item, "arguments"@) == Some(call.arguments)
}

/// The item is the reasoning of a generation, its trace as it stands.
pub open spec fn shows_trace(item: JsonView, trace: Seq<char>) -> bool {
    &&& text_field(item, "type"@) == Some("reasoning"@)
    &&& text_field(item, "status"@) == Some("completed"@)
    &&& text_field(item, "id"@) is Some
    &&& field(item, "content"@) matches Some(JsonView::Array(parts))
    &&& parts.len() == 1
    &&& text_field(parts[0], "type"@) == Some("reasoning_text"@)
    &&& text_field(parts[0], "text"@) == Some(trace)
}

pub proof fn lemma_shown_items(id: Seq<char>, call_id: Seq<char>, text: Seq<char>, call: ModelCallView)
    ensures
        shows_text(message(id, "completed"@, Some(text)), text),
        shows_call(function_call(id, call_id, call.name, call.arguments, "completed"@), call),
        shows_trace(reasoning(id, text, "reasoning_text"@), text),
        text_field(message(id, "completed"@, Some(text)), "id"@) == Some(id),
        text_field(
            function_call(id, call_id, call.name, call.arguments, "completed"@),
            "id"@,
        ) == Some(id),
        text_field(
            function_call(id, call_id, call.name, call.arguments, "completed"@),
            "call_id"@,
        ) == Some(call_id),
{
    lemma_item_words();
}

/// The output of a response shows the turn of the model: its text in one message, or
/// its calls, each in an item of its own, all of them and in their order. Before them
/// stands the trace, where the operator keeps traces and there is one, and nothing
/// else stands in it. A streamed response shows the same as another.
pub proof fn law_output_shows_the_turn(
    plan: PlanView,
    ids: IdSource,
    now: u64,
    turn: ModelTurnView,
    trace: Seq<char>,
    usage: TokenUsage,
)
    requires
        plan.reasoning_part_type == "reasoning_text"@,
    ensures
        ({
            let done = completed(plan, ids, now, turn, trace, usage);
            let kept = plan.reasoning_trace is Verbatim && trace.len() > 0;
            let before: int = if kept {
                1
            } else {
                0
            };
            &&& field(done.object, "output"@) == Some(JsonView::Array(done.output))
            &&& kept ==> done.output.len() > 0 && shows_trace(done.output[0], trace)
            &&& match turn {
                ModelTurnView::Message(text) => {
                    &&& done.output.len() == before + 1
                    &&& shows_text(done.output[before], text)
                },
                ModelTurnView::Calls(calls) => {
                    &&& done.output.len() == before + calls.len()
                    &&& forall|i: int|
                        0 <= i < calls.len() ==> shows_call(
                            #[trigger] done.output[before + i],
                            calls[i],
                        )
                },
            }
        }),
{
    let done = completed(plan, ids, now, turn, trace, usage);
    lemma_response_fields(
        head_of(plan, done.id, now),
        "completed"@,
        done.output,
        usage_object(usage),
    );
    lemma_shown_items(
        ids.id("rs_"@, 0),
        Seq::empty(),
        trace,
        ModelCallView { name: Seq::empty(), arguments: Seq::empty() },
    );
    let kept = plan.reasoning_trace is Verbatim && trace.len() > 0;
    let before: int = if kept {
        1
    } else {
        0
    };
    let source = if kept {
        ids.after(1)
    } else {
        ids
    };
    let taken = if plan.streaming {
        source.after(1)
    } else {
        source
    };
    match turn {
        ModelTurnView::Message(text) => {
            lemma_shown_items(
                taken.id("msg_"@, 0),
                Seq::empty(),
                text,
                ModelCallView { name: Seq::empty(), arguments: Seq::empty() },
            );
            assert(done.output[before] == message(taken.id("msg_"@, 0), "completed"@, Some(text)));
        },
        ModelTurnView::Calls(calls) => {
            assert forall|i: int| 0 <= i < calls.len() implies shows_call(
                #[trigger] done.output[before + i],
                calls[i],
            ) by {
                assert(done.output[before + i] == call_items(taken, calls)[i]);
                lemma_shown_items(
                    taken.id("fc_"@, (2 * i) as nat),
                    taken.id("call_"@, (2 * i + 1) as nat),
                    Seq::empty(),
                    calls[i],
                );
            }
        },
    }
}

proof fn lemma_object_words()
    ensures
        "id"@.len() == 2,
        "text"@.len() == 4,
        "usage"@.len() == 5 && "usage"@[0] == 'u',
        "model"@.len() == 5 && "model"@[0] == 'm',
        "tools"@.len() == 5 && "tools"@[0] == 't' && "tools"@[2] == 'o',
        "top_p"@.len() == 5 && "top_p"@[0] == 't' && "top_p"@[2] == 'p',
        "output"@.len() == 6 && "output"@[1] == 'u',
        "object"@.len() == 6 && "object"@[1] == 'b',
        "status"@.len() == 6 && "status"@[1] == 't',
        "metadata"@.len() == 8,
        "created_at"@.len() == 10,
        "tool_choice"@.len() == 11 && "tool_choice"@[1] == 'o',
        "temperature"@.len() == 11 && "temperature"@[1] == 'e',
        "conversation"@.len() == 12,
        "max_output_tokens"@.len() == 17,
        "parallel_tool_calls"@.len() == 19,
{
    reveal_strlit("id");
    reveal_strlit("text");
    reveal_strlit("usage");
    reveal_strlit("model");
    reveal_strlit("tools");
    reveal_strlit("top_p");
    reveal_strlit("output");
    reveal_strlit("object");
    reveal_strlit("status");
    reveal_strlit("metadata");
    reveal_strlit("created_at");
    reveal_strlit("tool_choice");
    reveal_strlit("temperature");
    reveal_strlit("conversation");
    reveal_strlit("max_output_tokens");
    reveal_strlit("parallel_tool_calls");
}

/// A response object shows what it is given, field by field: who it is, when it was
/// made, its status, its model, its metadata, its tools, its output and its usage, and
/// its conversation and its controls where there are any. Nothing else stands in it.
pub proof fn law_object_shows_its_fields(
    head: ResponseHead,
    status: Seq<char>,
    output: JsonView,
    usage: JsonView,
)
    ensures
        ({
            let object = response_object(head, status, output, usage);
            &&& object is Object
            &&& text_field(object, "object"@) == Some("response"@)
            &&& text_field(object, "id"@) == Some(head.id)
            &&& field(object, "created_at"@) == Some(unsigned(head.created_at as nat))
            &&& text_field(object, "status"@) == Some(status)
            &&& text_field(object, "model"@) == Some(head.model)
            &&& field(object, "metadata"@) == Some(
                match head.metadata {
                    Some(metadata) => metadata,
                    None => JsonView::Null,
                },
            )
            &&& field(object, "parallel_tool_calls"@) == Some(
                JsonView::Bool(head.echo.parallel_tool_calls),
            )
            &&& field(object, "tool_choice"@) == Some(head.echo.tool_choice)
            &&& field(object, "tools"@) == Some(head.echo.tools)
            &&& field(object, "output"@) == Some(output)
            &&& field(object, "usage"@) == Some(usage)
            &&& match head.conversation {
                Some(id) => field(object, "conversation"@) matches Some(shown) && text_field(
                    shown,
                    "id"@,
                ) == Some(id),
                None => field(object, "conversation"@) is None,
            }
            &&& match head.controls.temperature {
                Some(number) => field(object, "temperature"@) == Some(JsonView::Number(number)),
                None => field(object, "temperature"@) is None,
            }
            &&& match head.controls.top_p {
                Some(number) => field(object, "top_p"@) == Some(JsonView::Number(number)),
                None => field(object, "top_p"@) is None,
            }
            &&& match head.controls.max_output_tokens {
                Some(n) => field(object, "max_output_tokens"@) == Some(unsigned(n as nat)),
                None => field(object, "max_output_tokens"@) is None,
            }
            &&& match head.controls.verbosity {
                Some(word) => field(object, "text"@) matches Some(shown) && text_field(
                    shown,
                    "verbosity"@,
                ) == Some(word),
                None => field(object, "text"@) is None,
            }
        }),
{
    lemma_object_words();
}

/// The usage shows the counts of the generation: those of the prompt, of the output, of
/// the reasoning in it, and the sum of the first two.
pub proof fn law_usage_shows_the_counts(usage: TokenUsage)
    ensures
        ({
            let shown = usage_object(usage);
            &&& field(shown, "input_tokens"@) == Some(unsigned(usage.input_tokens as nat))
            &&& field(shown, "output_tokens"@) == Some(unsigned(usage.output_tokens as nat))
            &&& field(shown, "total_tokens"@) == Some(
                unsigned((usage.input_tokens + usage.output_tokens) as nat),
            )
            &&& field(shown, "output_tokens_details"@) matches Some(details) && field(
                details,
                "reasoning_tokens"@,
            ) == Some(unsigned(usage.reasoning_tokens as nat))
        }),
{
    reveal_strlit("input_tokens");
    reveal_strlit("output_tokens");
    reveal_strlit("total_tokens");
    reveal_strlit("output_tokens_details");
    assert("input_tokens"@.len() == 12 && "input_tokens"@[0] == 'i');
    assert("total_tokens"@.len() == 12 && "total_tokens"@[0] == 't');
    assert("output_tokens"@.len() == 13 && "output_tokens_details"@.len() == 21);
}

/// A completed response shows the plan it was made by: its model, its metadata, its
/// conversation, its tools and its controls, the time at which it was made, and the
/// usage of its generation. It is answered with 200, as JSON or, where the request asked
/// for a stream, as events.
pub proof fn law_response_shows_the_plan(
    plan: PlanView,
    ids: IdSource,
    now: u64,
    turn: ModelTurnView,
    trace: Seq<char>,
    usage: TokenUsage,
)
    ensures
        ({
            let done = completed(plan, ids, now, turn, trace, usage);
            let shown = done.object;
            &&& text_field(shown, "id"@) == Some(done.id)
            &&& text_field(shown, "status"@) == Some("completed"@)
            &&& text_field(shown, "model"@) == Some(plan.model)
            &&& field(shown, "created_at"@) == Some(unsigned(now as nat))
            &&& field(shown, "usage"@) == Some(usage_object(usage))
            &&& field(shown, "tools"@) == Some(plan.tools.echo().tools)
            &&& field(shown, "tool_choice"@) == Some(plan.tools.echo().tool_choice)
            &&& field(shown, "metadata"@) == Some(
                match plan.metadata {
                    Some(metadata) => metadata,
                    None => JsonView::Null,
                },
            )
            &&& match plan.conversation {
                Some((id, _)) => field(shown, "conversation"@) matches Some(named) && text_field(
                    named,
                    "id"@,
                ) == Some(id),
                None => field(shown, "conversation"@) is None,
            }
            &&& match plan.controls.max_output_tokens {
                Some(n) => field(shown, "max_output_tokens"@) == Some(unsigned(n as nat)),
                None => field(shown, "max_output_tokens"@) is None,
            }
            &&& done.reply.status == 200
            &&& plan.streaming == (done.reply.body is Events)
            &&& !plan.streaming ==> done.reply.body == ReplyBodyView::Json(shown)
        }),
{
    let done = completed(plan, ids, now, turn, trace, usage);
    law_object_shows_its_fields(
        head_of(plan, done.id, now),
        "completed"@,
        JsonView::Array(done.output),
        usage_object(usage),
    );
}

/// Without tools the text that was generated is the answer, letter for letter, whatever
/// it is, and where JSON is required only where it is JSON. With tools the envelope that
/// was generated decides, and a text that is no JSON is none.
pub proof fn law_generated_text_is_the_answer(
    tools: ToolRequestView,
    json_required: bool,
    text: Seq<char>,
    parsed: Result<JsonView, Seq<char>>,
)
    ensures
        !tools.offers_tools() ==> (turn_from(tools, json_required, text, parsed) is Ok) == (
        !json_required || parsed is Ok),
        turn_from(tools, json_required, text, parsed) matches Ok(turn) ==> !tools.offers_tools()
            ==> turn == ModelTurnView::Message(text),
        tools.offers_tools() && parsed is Err ==> turn_from(
            tools,
            json_required,
            text,
            parsed,
        ) is Err,
        parsed matches Ok(value) ==> tools.offers_tools() ==> turn_from(
            tools,
            json_required,
            text,
            parsed,
        ) == read_turn(value, tools),
{
}

/// The events of an item begin with the item in progress and end with the item as it
/// is; the text, the trace or the arguments stand whole in the delta and in the event
/// that closes it. Every one of them names the place of the item.
pub proof fn law_events_show_the_item(item: JsonView, index: nat)
    ensures
        ({
            let events = one_item_events(item, index);
            let kind = text_field(item, "type"@);
            &&& events.len() == if kind == Some("message"@) {
                6nat
            } else if kind == Some("reasoning"@) || kind == Some("function_call"@) {
                4
            } else {
                0
            }
            &&& events.len() > 0 ==> {
                &&& events[0].kind == "response.output_item.added"@
                &&& events.last().kind == "response.output_item.done"@
                &&& events.last().fields.contains_key("item"@)
                &&& events.last().fields["item"@] == item
                &&& forall|i: int|
                    0 <= i < events.len() ==> (#[trigger] events[i]).fields.contains_key(
                        "output_index"@,
                    ) && events[i].fields["output_index"@] == unsigned(index)
            }
            &&& kind == Some("message"@) ==> {
                &&& events[2].kind == "response.output_text.delta"@
                &&& events[2].fields["delta"@] == JsonView::Str(first_part_text(item))
                &&& events[3].kind == "response.output_text.done"@
                &&& events[3].fields["text"@] == JsonView::Str(first_part_text(item))
            }
            &&& kind == Some("reasoning"@) ==> {
                &&& events[1].kind == "response.reasoning_text.delta"@
                &&& events[1].fields["delta"@] == JsonView::Str(first_part_text(item))
                &&& events[2].kind == "response.reasoning_text.done"@
                &&& events[2].fields["text"@] == JsonView::Str(first_part_text(item))
            }
            &&& kind == Some("function_call"@) ==> {
                &&& events[1].kind == "response.function_call_arguments.delta"@
                &&& events[1].fields["delta"@] == JsonView::Str(text_or_empty(item, "arguments"@))
                &&& events[2].kind == "response.function_call_arguments.done"@
                &&& events[2].fields["arguments"@] == JsonView::Str(
                    text_or_empty(item, "arguments"@),
                )
            }
        }),
{
    lemma_item_words();
    let events = one_item_events(item, index);
    let kind = text_field(item, "type"@);
    if kind == Some("message"@) {
        assert(events =~= message_events(item, index));
    } else if kind == Some("reasoning"@) {
        assert(events =~= reasoning_events(item, index));
    } else if kind == Some("function_call"@) {
        assert(events =~= call_events(item, index));
    }
}

/// What a message shows is what its events carry, and so with the trace and the
/// arguments of a call.
pub proof fn law_events_carry_what_is_shown(
    item: JsonView,
    text: Seq<char>,
    call: ModelCallView,
)
    ensures
        shows_text(item, text) ==> first_part_text(item) == text,
        shows_trace(item, text) ==> first_part_text(item) == text,
        shows_call(item, call) ==> text_or_empty(item, "arguments"@) == call.arguments,
        field(item, "content"@) is None ==> first_part_text(item) == Seq::<char>::empty(),
{
}

/// The events of the items come item after item: those of more items stand behind those
/// of the ones before, and none is left out.
pub proof fn law_items_stream_in_order(items: Seq<JsonView>, item: JsonView)
    ensures
        items_events(Seq::empty()) == Seq::<EventDraft>::empty(),
        items_events(items.push(item)) == items_events(items) + one_item_events(item, items.len()),
{
    assert(items.push(item).drop_last() =~= items);
}

/// The first events show the response in progress, the last one the completed response,
/// and between them stand the events of the items, each with the fields it has.
pub proof fn law_stream_shows_the_response(
    in_progress: JsonView,
    finished: JsonView,
    items: Seq<JsonView>,
    place: int,
)
    requires
        0 <= place < items_events(items).len(),
    ensures
        ({
            let events = response_events(in_progress, finished, items);
            let draft = items_events(items)[place];
            &&& field(events[0].1, "response"@) == Some(in_progress)
            &&& field(events[1].1, "response"@) == Some(in_progress)
            &&& field(events.last().1, "response"@) == Some(finished)
            &&& events[place + 2].0 == draft.kind
            &&& forall|key: Seq<char>|
                draft.fields.contains_key(key) && key != "type"@ && key != "sequence_number"@
                    ==> #[trigger] field(events[place + 2].1, key) == Some(draft.fields[key])
        }),
{
    lemma_item_words();
    let drafts = event_drafts(in_progress, finished, items);
    assert(drafts[place + 2] == items_events(items)[place]);
}

/// The text of a stream is that of its events, one behind the other: none is left out
/// but those that the start drops, and each is its type and its payload.
pub proof fn law_stream_is_all_its_events(
    first: Seq<(Seq<char>, JsonView)>,
    second: Seq<(Seq<char>, JsonView)>,
    event: (Seq<char>, JsonView),
    starting_after: Option<u32>,
)
    ensures
        rendered(first + second, starting_after) == rendered(first, starting_after) + rendered(
            second,
            starting_after,
        ),
        rendered(seq![event], None) == "event: "@ + event.0 + "\ndata: "@
            + crate::json_text::json_text(event.1) + "\n\n"@,
        rendered(Seq::empty(), starting_after) == Seq::<char>::empty(),
    decreases second.len(),
{
    if second.len() == 0 {
        assert(first + second =~= first);
        assert(rendered(first, starting_after) + Seq::<char>::empty() =~= rendered(
            first,
            starting_after,
        ));
    } else {
        let whole = first + second;
        assert(whole.drop_last() =~= first + second.drop_last());
        assert(whole.last() == second.last());
        law_stream_is_all_its_events(first, second.drop_last(), event, starting_after);
        if stays(second.last().1, starting_after) {
            let front = rendered(first, starting_after);
            let rest = rendered(second.drop_last(), starting_after);
            assert(front + rest + event_text(second.last()) =~= front + (rest + event_text(
                second.last(),
            )));
        }
    }
    let one = seq![event];
    assert(one.drop_last() =~= Seq::empty());
    assert(rendered(one.drop_last(), None) == Seq::<char>::empty());
    assert(Seq::<char>::empty() + event_text(event) =~= event_text(event));
}

/// Every event of an item names the item and its content part. The first one shows the
/// item still empty and in progress, and the parts of a message show what the message
/// says.
pub proof fn law_events_name_their_item(item: JsonView, index: nat, id: Seq<char>)
    requires
        text_field(item, "id"@) == Some(id),
    ensures
        ({
            let events = one_item_events(item, index);
            let kind = text_field(item, "type"@);
            &&& forall|i: int|
                0 < i < events.len() - 1 ==> (#[trigger] events[i]).fields.contains_key("item_id"@)
                    && events[i].fields["item_id"@] == JsonView::Str(id)
            &&& kind == Some("message"@) || kind == Some("reasoning"@) ==> forall|i: int|
                0 < i < events.len() - 1 ==> (#[trigger] events[i]).fields.contains_key(
                    "content_index"@,
                ) && events[i].fields["content_index"@] == unsigned(0)
            &&& events.len() > 0 ==> {
                let opened = events[0].fields["item"@];
                &&& events[0].fields.contains_key("item"@)
                &&& text_field(opened, "id"@) == Some(id)
                &&& text_field(opened, "type"@) == kind
                &&& text_field(opened, "status"@) == Some("in_progress"@)
                &&& kind != Some("function_call"@) ==> field(opened, "content"@) == Some(
                    JsonView::Array(Seq::empty()),
                )
                &&& kind == Some("function_call"@) ==> {
                    &&& text_field(opened, "arguments"@) == Some(""@)
                    &&& text_field(opened, "name"@) == Some(text_or_empty(item, "name"@))
                    &&& text_field(opened, "call_id"@) == Some(text_or_empty(item, "call_id"@))
                }
            }
            &&& kind == Some("message"@) ==> {
                &&& events[1].kind == "response.content_part.added"@
                &&& text_field(events[1].fields["part"@], "text"@) == Some(""@)
                &&& events[4].kind == "response.content_part.done"@
                &&& text_field(events[4].fields["part"@], "text"@) == Some(first_part_text(item))
                &&& text_field(events[4].fields["part"@], "type"@) == Some("output_text"@)
            }
        }),
{
    lemma_item_words();
    let kind = text_field(item, "type"@);
    let events = one_item_events(item, index);
    if kind == Some("message"@) {
        assert(events == message_events(item, index));
        assert(text_field(events[0].fields["item"@], "status"@) == Some("in_progress"@));
    } else if kind == Some("reasoning"@) {
        assert(events == reasoning_events(item, index));
        assert(text_field(events[0].fields["item"@], "status"@) == Some("in_progress"@));
    } else if kind == Some("function_call"@) {
        assert(events == call_events(item, index));
        assert(text_field(events[0].fields["item"@], "status"@) == Some("in_progress"@));
    }
}

proof fn lemma_counts_differ(ids: IdSource, prefix: Seq<char>, one: nat, two: nat)
    requires
        ids.count + one <= u64::MAX,
        ids.count + two <= u64::MAX,
        one != two,
    ensures
        ids.id(prefix, one) != ids.id(prefix, two),
{
    let start = prefix + hexadecimal(ids.nanos as nat);
    let first = ids.id(prefix, one);
    let second = ids.id(prefix, two);
    assert(first.skip(start.len() as int) =~= hexadecimal((ids.count + one) as nat));
    assert(second.skip(start.len() as int) =~= hexadecimal((ids.count + two) as nat));
    if first == second {
        lemma_hexadecimal_is_injective((ids.count + one) as nat, (ids.count + two) as nat);
    }
}

/// No two calls of a response have the same identifier, and none has the identifier
/// that the model is answered under by another.
pub proof fn law_calls_have_their_own_identifiers(
    ids: IdSource,
    calls: Seq<ModelCallView>,
    one: int,
    two: int,
)
    requires
        0 <= one < calls.len(),
        0 <= two < calls.len(),
        one != two,
        ids.count + 2 * calls.len() <= u64::MAX,
    ensures
        ({
            let items = call_items(ids, calls);
            &&& text_field(items[one], "id"@) is Some
            &&& text_field(items[one], "call_id"@) is Some
            &&& text_field(items[one], "id"@) != text_field(items[two], "id"@)
            &&& text_field(items[one], "call_id"@) != text_field(items[two], "call_id"@)
        }),
{
    lemma_item_words();
    lemma_counts_differ(ids, "fc_"@, (2 * one) as nat, (2 * two) as nat);
    lemma_counts_differ(ids, "call_"@, (2 * one + 1) as nat, (2 * two + 1) as nat);
    let items = call_items(ids, calls);
    assert(text_field(items[one], "id"@) == Some(ids.id("fc_"@, (2 * one) as nat)));
    assert(text_field(items[two], "id"@) == Some(ids.id("fc_"@, (2 * two) as nat)));
    assert(text_field(items[one], "call_id"@) == Some(ids.id("call_"@, (2 * one + 1) as nat)));
    assert(text_field(items[two], "call_id"@) == Some(ids.id("call_"@, (2 * two + 1) as nat)));
}

/// White space around a generated text makes no difference to the calls and the message
/// that are read from it, nor to whether it is the JSON that was asked for.
pub proof fn law_white_space_around_json_is_nothing(
    tools: ToolRequestView,
    json_required: bool,
    text: Seq<char>,
)
    ensures
        tools.offers_tools() ==> turn_of(tools, json_required, text) == turn_of(
            tools,
            json_required,
            trimmed(text),
        ),
        (turn_of(tools, json_required, text) is Ok) == (turn_of(
            tools,
            json_required,
            trimmed(text),
        ) is Ok),
{
    law_trimming_takes_white_space_alone(text);
    let inner = trimmed(text);
    if inner.len() > 0 {
        assert(trimmed_start(inner) == inner);
        assert(inner[inner.len() - 1] == inner.last());
        assert(trimmed(inner) == inner);
    } else {
        assert(trimmed_start(inner) == inner);
        assert(trimmed(inner) == inner);
    }
}

/// A stream carries the response: its events lead from the response in progress, still
/// empty, to the response as it is stored, and show each of its items between.
pub proof fn law_stream_carries_the_response(
    plan: PlanView,
    ids: IdSource,
    now: u64,
    turn: ModelTurnView,
    trace: Seq<char>,
    usage: TokenUsage,
)
    requires
        plan.streaming,
    ensures
        ({
            let done = completed(plan, ids, now, turn, trace, usage);
            let opened = response_object(
                head_of(plan, done.id, now),
                "in_progress"@,
                JsonView::Array(Seq::empty()),
                JsonView::Null,
            );
            &&& done.reply.status == 200
            &&& done.reply.body == ReplyBodyView::Events(
                rendered(response_events(opened, done.object, done.output), None),
            )
            &&& field(done.object, "output"@) == Some(JsonView::Array(done.output))
        }),
{
    let done = completed(plan, ids, now, turn, trace, usage);
    law_object_shows_its_fields(
        head_of(plan, done.id, now),
        "completed"@,
        JsonView::Array(done.output),
        usage_object(usage),
    );
}

/// A job takes as many identifiers as its output needs, and none where it puts nothing
/// out. Its record is what it came to, with the items that it answered.
pub proof fn law_job_takes_what_it_needs(
    job: JobView,
    ids: IdSource,
    outcome: JobOutcomeView,
    cancelled: bool,
    response: JsonView,
)
    ensures
        ({
            let turn = turn_of(job.plan.tools, job.plan.json_required, outcome->Generated_0);
            let next = final_ids(job, ids, outcome, cancelled);
            &&& cancelled || !(outcome is Generated) || turn is Err ==> next == ids
            &&& outcome is Generated && !cancelled && turn is Ok ==> next == match turn->Ok_0 {
                ModelTurnView::Message(_) => ids.after(1),
                ModelTurnView::Calls(calls) => ids.after(2 * calls.len()),
            }
        }),
        job_record(job, response).response == response,
        job_record(job, response).input_items == job.plan.input_items,
{
}

/// The shapes have all the fields that clients look for: a part of a message has its
/// annotations, a trace its summary and its encrypted content, and the event of a text
/// its log probabilities, each of them empty.
pub proof fn law_shapes_have_their_empty_fields(
    id: Seq<char>,
    text: Seq<char>,
    kind: Seq<char>,
    index: nat,
)
    ensures
        field(text_part(text), "annotations"@) == Some(JsonView::Array(Seq::empty())),
        field(message(id, kind, None), "content"@) == Some(JsonView::Array(Seq::empty())),
        field(reasoning(id, text, kind), "summary"@) == Some(JsonView::Array(Seq::empty())),
        field(reasoning(id, text, kind), "encrypted_content"@) == Some(JsonView::Null),
        ({
            let events = one_item_events(message(id, "completed"@, Some(text)), index);
            &&& events.len() == 6
            &&& events[2].fields.contains_key("logprobs"@)
            &&& events[2].fields["logprobs"@] == JsonView::Array(Seq::empty())
            &&& events[4].fields["part"@] == text_part(text)
        }),
{
    lemma_item_words();
    let item = message(id, "completed"@, Some(text));
    assert(text_field(item, "type"@) == Some("message"@));
    assert(field(item, "content"@) == Some(JsonView::Array(seq![text_part(text)])));
    assert(text_field(text_part(text), "text"@) == Some(text));
    assert(first_part_text(item) == text);
    assert(one_item_events(item, index) == message_events(item, index));
}

/// A stored response can be streamed again exactly where it has a list of output items,
/// an identifier and a time.
pub proof fn law_what_can_be_replayed(response: JsonView)
    ensures
        can_replay(response) == ({
            &&& field(response, "output"@) is Some && field(response, "output"@)->0 is Array
            &&& text_field(response, "id"@) is Some
            &&& exists|n: u64| #[trigger]
                unsigned(n as nat) == field(response, "created_at"@)->0 && field(
                    response,
                    "created_at"@,
                ) is Some
        }),
{
    if let Some(JsonView::Number(NumberView::PosInt(n))) = field(response, "created_at"@) {
        assert(unsigned(n as nat) == field(response, "created_at"@)->0);
    }
}

} // verus!
