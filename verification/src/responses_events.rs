//! The event stream of one response: the ordered event list and its text.

use vstd::prelude::*;

use crate::json::{
    clone_values,
    field,
    no_fields,
    text_field,
    unsigned,
    values_view,
    Json,
    JsonObject,
    JsonView,
    NumberView,
};
use crate::json_text::{json_text, json_to_string};
use crate::llm::TokenUsage;
use crate::responses_shape::{
    array_of,
    build_response_object,
    call_items,
    empty_array,
    function_call,
    function_call_item,
    items_of_calls,
    lemma_after,
    message,
    message_item,
    no_items,
    output_text_part,
    prepend_reasoning,
    reasoning_in_progress,
    reasoning_item_in_progress,
    response_object,
    text_part,
    usage_json,
    usage_object,
    with_reasoning,
    IdSource,
    ResponseControls,
    ResponseHead,
};
use crate::responses_tools::{calls_view, ModelCall, ModelCallView, ToolEcho};
use crate::text::same_text;

verus! {

/// An event before it has its number: its type and its payload fields.
pub struct EventDraft {
    pub kind: Seq<char>,
    pub fields: Map<Seq<char>, JsonView>,
}

/// The generated turn of a stream.
pub enum StreamOutput<'a> {
    Text(&'a str),
    Calls(&'a Vec<ModelCall>),
}

/// The meaning of a [`StreamOutput`].
pub enum StreamOutputView {
    Text(Seq<char>),
    Calls(Seq<ModelCallView>),
}

impl<'a> View for StreamOutput<'a> {
    type V = StreamOutputView;

    open spec fn view(&self) -> StreamOutputView {
        match self {
            StreamOutput::Text(text) => StreamOutputView::Text(text@),
            StreamOutput::Calls(calls) => StreamOutputView::Calls(calls_view(calls@)),
        }
    }
}

/// A text field, or the empty text where it is missing.
pub open spec fn text_or_empty(value: JsonView, key: Seq<char>) -> Seq<char> {
    match text_field(value, key) {
        Some(text) => text,
        None => Seq::empty(),
    }
}

/// The text of the first content part of an item, or the empty text.
pub open spec fn first_part_text(item: JsonView) -> Seq<char> {
    match field(item, "content"@) {
        Some(JsonView::Array(parts)) => if parts.len() > 0 {
            text_or_empty(parts[0], "text"@)
        } else {
            Seq::empty()
        },
        _ => Seq::empty(),
    }
}

/// The fields of an event of one item: the item's identifier and its place.
pub open spec fn item_fields(id: Seq<char>, index: nat) -> Map<Seq<char>, JsonView> {
    no_fields().insert("item_id"@, JsonView::Str(id)).insert("output_index"@, unsigned(index))
}

/// The fields of an event of one content part.
pub open spec fn part_fields(id: Seq<char>, index: nat) -> Map<Seq<char>, JsonView> {
    item_fields(id, index).insert("content_index"@, unsigned(0))
}

/// The event that shows an item.
pub open spec fn item_event(kind: Seq<char>, index: nat, item: JsonView) -> EventDraft {
    EventDraft {
        kind,
        fields: no_fields().insert("output_index"@, unsigned(index)).insert("item"@, item),
    }
}

/// The events of a `message` item.
pub open spec fn message_events(item: JsonView, index: nat) -> Seq<EventDraft> {
    let id = text_or_empty(item, "id"@);
    let text = first_part_text(item);
    seq![
        item_event("response.output_item.added"@, index, message(id, "in_progress"@, None)),
        EventDraft {
            kind: "response.content_part.added"@,
            fields: part_fields(id, index).insert("part"@, text_part(""@)),
        },
        EventDraft {
            kind: "response.output_text.delta"@,
            fields: part_fields(id, index).insert("delta"@, JsonView::Str(text)).insert(
                "logprobs"@,
                no_items(),
            ),
        },
        EventDraft {
            kind: "response.output_text.done"@,
            fields: part_fields(id, index).insert("text"@, JsonView::Str(text)),
        },
        EventDraft {
            kind: "response.content_part.done"@,
            fields: part_fields(id, index).insert("part"@, text_part(text)),
        },
        item_event("response.output_item.done"@, index, item),
    ]
}

/// The events of a `reasoning` item.
pub open spec fn reasoning_events(item: JsonView, index: nat) -> Seq<EventDraft> {
    let id = text_or_empty(item, "id"@);
    let text = first_part_text(item);
    seq![
        item_event("response.output_item.added"@, index, reasoning_in_progress(id)),
        EventDraft {
            kind: "response.reasoning_text.delta"@,
            fields: part_fields(id, index).insert("delta"@, JsonView::Str(text)),
        },
        EventDraft {
            kind: "response.reasoning_text.done"@,
            fields: part_fields(id, index).insert("text"@, JsonView::Str(text)),
        },
        item_event("response.output_item.done"@, index, item),
    ]
}

/// The events of a `function_call` item.
pub open spec fn call_events(item: JsonView, index: nat) -> Seq<EventDraft> {
    let id = text_or_empty(item, "id"@);
    let arguments = text_or_empty(item, "arguments"@);
    seq![
        item_event(
            "response.output_item.added"@,
            index,
            function_call(
                id,
                text_or_empty(item, "call_id"@),
                text_or_empty(item, "name"@),
                ""@,
                "in_progress"@,
            ),
        ),
        EventDraft {
            kind: "response.function_call_arguments.delta"@,
            fields: item_fields(id, index).insert("delta"@, JsonView::Str(arguments)),
        },
        EventDraft {
            kind: "response.function_call_arguments.done"@,
            fields: item_fields(id, index).insert("arguments"@, JsonView::Str(arguments)),
        },
        item_event("response.output_item.done"@, index, item),
    ]
}

/// The events of one output item. An item of another type has none.
pub open spec fn one_item_events(item: JsonView, index: nat) -> Seq<EventDraft> {
    match text_field(item, "type"@) {
        Some(kind) => if kind == "message"@ {
            message_events(item, index)
        } else if kind == "reasoning"@ {
            reasoning_events(item, index)
        } else if kind == "function_call"@ {
            call_events(item, index)
        } else {
            Seq::empty()
        },
        None => Seq::empty(),
    }
}

/// The events of the output items, item after item.
pub open spec fn items_events(items: Seq<JsonView>) -> Seq<EventDraft>
    decreases items.len(),
{
    if items.len() == 0 {
        Seq::empty()
    } else {
        items_events(items.drop_last()) + one_item_events(
            items.last(),
            (items.len() - 1) as nat,
        )
    }
}

/// The event that shows a response object.
pub open spec fn response_event(kind: Seq<char>, response: JsonView) -> EventDraft {
    EventDraft { kind, fields: no_fields().insert("response"@, response) }
}

/// The events of one response, before they are numbered.
pub open spec fn event_drafts(
    in_progress: JsonView,
    completed: JsonView,
    items: Seq<JsonView>,
) -> Seq<EventDraft> {
    seq![
        response_event("response.created"@, in_progress),
        response_event("response.in_progress"@, in_progress),
    ] + items_events(items) + seq![response_event("response.completed"@, completed)]
}

/// An event: its type and its payload, which carries the type and the number.
pub open spec fn numbered(draft: EventDraft, sequence: nat) -> (Seq<char>, JsonView) {
    (
        draft.kind,
        JsonView::Object(
            draft.fields.insert("type"@, JsonView::Str(draft.kind)).insert(
                "sequence_number"@,
                unsigned(sequence),
            ),
        ),
    )
}

/// The ordered events of one response. The number of each is its place.
pub open spec fn response_events(
    in_progress: JsonView,
    completed: JsonView,
    items: Seq<JsonView>,
) -> Seq<(Seq<char>, JsonView)> {
    let drafts = event_drafts(in_progress, completed, items);
    Seq::new(drafts.len(), |i: int| numbered(drafts[i], i as nat))
}

/// The views of events.
pub open spec fn events_view(events: Seq<(String, Json)>) -> Seq<(Seq<char>, JsonView)> {
    Seq::new(events.len(), |i: int| (events[i].0@, events[i].1@))
}

/// Events that are numbered by their place.
pub open spec fn numbered_drafts(drafts: Seq<EventDraft>) -> Seq<(Seq<char>, JsonView)> {
    Seq::new(drafts.len(), |i: int| numbered(drafts[i], i as nat))
}

/// Appends one event. Its payload gets the event's type and the next number.
fn push_event(events: &mut Vec<(String, Json)>, kind: &str, fields: JsonObject)
    ensures
        events_view(final(events)@) == events_view(old(events)@).push(
            numbered(EventDraft { kind: kind@, fields: fields@ }, old(events)@.len()),
        ),
{
    let sequence: u64 = events.len() as u64;
    let payload = Json::Object(
        fields.with("type", Json::text(kind)).with("sequence_number", Json::unsigned(sequence)),
    );
    let ghost before = events_view(events@);
    let ghost new = payload@;
    events.push((kind.to_owned(), payload));
    assert(events_view(events@) =~= before.push((kind@, new)));
}

/// The events after the list are those of the drafts, numbered on.
spec fn extends(
    before: Seq<(Seq<char>, JsonView)>,
    after: Seq<(Seq<char>, JsonView)>,
    drafts: Seq<EventDraft>,
) -> bool {
    forall|all: Seq<EventDraft>|
        before == numbered_drafts(all) ==> after == #[trigger] numbered_drafts(all + drafts)
}

/// A text field of an item, or the empty text where it is missing.
fn text_of<'a>(item: &'a Json, key: &str) -> (text: &'a str)
    ensures
        text@ == text_or_empty(item@, key@),
{
    match item.get_str(key) {
        Some(text) => text,
        None => {
            proof {
                reveal_strlit("");
                assert(""@ =~= Seq::<char>::empty());
            }
            ""
        },
    }
}

/// The text of the first content part of an item, or the empty text.
fn part_text(item: &Json) -> (text: &str)
    ensures
        text@ == first_part_text(item@),
{
    if let Some(Json::Array(parts)) = item.get("content") {
        if parts.len() > 0 {
            return text_of(&parts[0], "text");
        }
    }
    proof {
        reveal_strlit("");
        assert(""@ =~= Seq::<char>::empty());
    }
    ""
}

fn for_item(item_id: &str, index: u64) -> (fields: JsonObject)
    ensures
        fields@ == item_fields(item_id@, index as nat),
{
    JsonObject::new().with("item_id", Json::text(item_id)).with(
        "output_index",
        Json::unsigned(index),
    )
}

fn for_part(item_id: &str, index: u64) -> (fields: JsonObject)
    ensures
        fields@ == part_fields(item_id@, index as nat),
{
    for_item(item_id, index).with("content_index", Json::unsigned(0))
}

fn showing(index: u64, item: Json) -> (fields: JsonObject)
    ensures
        fields@ == item_event(""@, index as nat, item@).fields,
{
    JsonObject::new().with("output_index", Json::unsigned(index)).with("item", item)
}

fn push_message_events(events: &mut Vec<(String, Json)>, item: &Json, index: u64)
    ensures
        extends(
            events_view(old(events)@),
            events_view(final(events)@),
            message_events(item@, index as nat),
        ),
{
    let ghost before = events_view(events@);
    let id = text_of(item, "id");
    let text = part_text(item);
    push_event(
        events,
        "response.output_item.added",
        showing(index, message_item(id, "in_progress", None)),
    );
    push_event(
        events,
        "response.content_part.added",
        for_part(id, index).with("part", output_text_part("")),
    );
    push_event(
        events,
        "response.output_text.delta",
        for_part(id, index).with("delta", Json::text(text)).with("logprobs", empty_array()),
    );
    push_event(
        events,
        "response.output_text.done",
        for_part(id, index).with("text", Json::text(text)),
    );
    push_event(
        events,
        "response.content_part.done",
        for_part(id, index).with("part", output_text_part(text)),
    );
    push_event(events, "response.output_item.done", showing(index, item.clone()));
    assert forall|all: Seq<EventDraft>| before == numbered_drafts(all) implies events_view(events@)
        == #[trigger] numbered_drafts(all + message_events(item@, index as nat)) by {
        assert(events_view(events@) =~= numbered_drafts(
            all + message_events(item@, index as nat),
        ));
    }
}

fn push_reasoning_events(events: &mut Vec<(String, Json)>, item: &Json, index: u64)
    ensures
        extends(
            events_view(old(events)@),
            events_view(final(events)@),
            reasoning_events(item@, index as nat),
        ),
{
    let ghost before = events_view(events@);
    let id = text_of(item, "id");
    let text = part_text(item);
    push_event(
        events,
        "response.output_item.added",
        showing(index, reasoning_item_in_progress(id)),
    );
    push_event(
        events,
        "response.reasoning_text.delta",
        for_part(id, index).with("delta", Json::text(text)),
    );
    push_event(
        events,
        "response.reasoning_text.done",
        for_part(id, index).with("text", Json::text(text)),
    );
    push_event(events, "response.output_item.done", showing(index, item.clone()));
    assert forall|all: Seq<EventDraft>| before == numbered_drafts(all) implies events_view(events@)
        == #[trigger] numbered_drafts(all + reasoning_events(item@, index as nat)) by {
        assert(events_view(events@) =~= numbered_drafts(
            all + reasoning_events(item@, index as nat),
        ));
    }
}

fn push_call_events(events: &mut Vec<(String, Json)>, item: &Json, index: u64)
    ensures
        extends(
            events_view(old(events)@),
            events_view(final(events)@),
            call_events(item@, index as nat),
        ),
{
    let ghost before = events_view(events@);
    let id = text_of(item, "id");
    let arguments = text_of(item, "arguments");
    push_event(
        events,
        "response.output_item.added",
        showing(
            index,
            function_call_item(
                id,
                text_of(item, "call_id"),
                text_of(item, "name"),
                "",
                "in_progress",
            ),
        ),
    );
    push_event(
        events,
        "response.function_call_arguments.delta",
        for_item(id, index).with("delta", Json::text(arguments)),
    );
    push_event(
        events,
        "response.function_call_arguments.done",
        for_item(id, index).with("arguments", Json::text(arguments)),
    );
    push_event(events, "response.output_item.done", showing(index, item.clone()));
    assert forall|all: Seq<EventDraft>| before == numbered_drafts(all) implies events_view(events@)
        == #[trigger] numbered_drafts(all + call_events(item@, index as nat)) by {
        assert(events_view(events@) =~= numbered_drafts(all + call_events(item@, index as nat)));
    }
}

/// The ordered event list of one response.
///
/// `in_progress` and `completed` are the two response objects that the stream
/// carries and `items` are the final output items, from which the events of each
/// item follow. So the list is the same whether the response is streamed when it
/// is created or replayed later.
pub fn build_events(in_progress: Json, completed: Json, items: &Vec<Json>) -> (events: Vec<
    (String, Json),
>)
    ensures
        events_view(events@) == response_events(
            in_progress@,
            completed@,
            values_view(items@),
        ),
{
    let ghost first = in_progress@;
    let ghost views = values_view(items@);
    let mut events: Vec<(String, Json)> = Vec::new();
    push_event(
        &mut events,
        "response.created",
        JsonObject::new().with("response", in_progress.clone()),
    );
    push_event(
        &mut events,
        "response.in_progress",
        JsonObject::new().with("response", in_progress),
    );
    let ghost head = seq![
        response_event("response.created"@, first),
        response_event("response.in_progress"@, first),
    ];
    let ghost drafts = head;
    assert(events_view(events@) =~= numbered_drafts(drafts));
    assert(views.take(0) =~= Seq::empty());
    assert(head + items_events(views.take(0)) =~= head);
    let size: usize = items.len();
    for index in 0..size
        invariant
            size == items@.len(),
            views == values_view(items@),
            drafts == head + items_events(views.take(index as int)),
            events_view(events@) == numbered_drafts(drafts),
    {
        let item = &items[index];
        let ghost group = one_item_events(item@, index as nat);
        if let Some(kind) = item.get_str("type") {
            if same_text(kind, "message") {
                push_message_events(&mut events, item, index as u64);
            } else if same_text(kind, "reasoning") {
                push_reasoning_events(&mut events, item, index as u64);
            } else if same_text(kind, "function_call") {
                push_call_events(&mut events, item, index as u64);
            } else {
                assert(drafts + group =~= drafts);
            }
        } else {
            assert(drafts + group =~= drafts);
        }
        proof {
            let taken = views.take(index as int + 1);
            assert(taken.drop_last() =~= views.take(index as int));
            assert(taken.last() == item@);
            assert(head + (items_events(views.take(index as int)) + group) =~= drafts + group);
            drafts = drafts + group;
        }
    }
    assert(views.take(size as int) =~= views);
    push_event(
        &mut events,
        "response.completed",
        JsonObject::new().with("response", completed),
    );
    assert(events_view(events@) =~= response_events(first, completed@, views));
    events
}

/// The number of an event, or the largest one where its payload has none.
pub open spec fn sequence_of(payload: JsonView) -> u64 {
    match field(payload, "sequence_number"@) {
        Some(JsonView::Number(NumberView::PosInt(n))) => n,
        _ => u64::MAX,
    }
}

/// Whether an event stays in a stream that starts after a number.
pub open spec fn stays(payload: JsonView, starting_after: Option<u32>) -> bool {
    match starting_after {
        Some(start) => sequence_of(payload) > start,
        None => true,
    }
}

/// The text of one event.
pub open spec fn event_text(event: (Seq<char>, JsonView)) -> Seq<char> {
    "event: "@ + event.0 + "\ndata: "@ + json_text(event.1) + "\n\n"@
}

/// The text of the events that stay, in their order.
pub open spec fn rendered(
    events: Seq<(Seq<char>, JsonView)>,
    starting_after: Option<u32>,
) -> Seq<char>
    decreases events.len(),
{
    if events.len() == 0 {
        Seq::empty()
    } else {
        let before = rendered(events.drop_last(), starting_after);
        if stays(events.last().1, starting_after) {
            before + event_text(events.last())
        } else {
            before
        }
    }
}

/// Renders an event list as the text of the stream. `starting_after` drops the
/// events up to that number; the others keep theirs.
pub fn render_events(events: &Vec<(String, Json)>, starting_after: Option<u32>) -> (body: String)
    ensures
        body@ == rendered(events_view(events@), starting_after),
{
    let mut body = String::new();
    let ghost views = events_view(events@);
    assert(views.take(0) =~= Seq::empty());
    let size: usize = events.len();
    for i in 0..size
        invariant
            size == events@.len(),
            views == events_view(events@),
            body@ == rendered(views.take(i as int), starting_after),
    {
        let payload = &events[i].1;
        proof {
            let taken = views.take(i as int + 1);
            assert(taken.drop_last() =~= views.take(i as int));
            assert(taken.last() == (events@[i as int].0@, payload@));
        }
        let keep = match starting_after {
            Some(start) => {
                let sequence: u64 = match payload.get("sequence_number") {
                    Some(Json::Number(number)) => match number.as_u64() {
                        Some(n) => n,
                        None => u64::MAX,
                    },
                    _ => u64::MAX,
                };
                sequence > start as u64
            },
            None => true,
        };
        if keep {
            let ghost before = body@;
            body.append("event: ");
            body.append(events[i].0.as_str());
            body.append("\ndata: ");
            body.append(json_to_string(payload).as_str());
            body.append("\n\n");
            assert(body@ =~= before + event_text(views[i as int]));
        }
    }
    assert(views.take(size as int) =~= views);
    body
}

/// The output items of a streamed turn, with fresh identifiers.
pub open spec fn output_items(ids: IdSource, output: StreamOutputView) -> Seq<JsonView> {
    match output {
        StreamOutputView::Text(text) => seq![message(ids.id("msg_"@, 0), "completed"@, Some(text))],
        StreamOutputView::Calls(calls) => call_items(ids, calls),
    }
}

/// How many identifiers the items of a streamed turn take.
pub open spec fn items_ids(output: StreamOutputView) -> nat {
    match output {
        StreamOutputView::Text(_) => 1,
        StreamOutputView::Calls(calls) => 2 * calls.len(),
    }
}

/// The final output items of a streamed turn. Their identifiers are made once,
/// so the events of each item and the completed body carry the same ones.
fn stream_items(ids: &mut IdSource, output: StreamOutput<'_>) -> (items: Vec<Json>)
    ensures
        values_view(items@) == output_items(*old(ids), output@),
        *final(ids) == old(ids).after(items_ids(output@)),
{
    match output {
        StreamOutput::Text(text) => {
            let id = ids.new_id("msg_");
            let mut items: Vec<Json> = Vec::new();
            let item = message_item(id.as_str(), "completed", Some(text));
            let ghost only = item@;
            items.push(item);
            assert(values_view(items@) =~= seq![only]);
            items
        },
        StreamOutput::Calls(calls) => items_of_calls(ids, calls),
    }
}

/// The items of a stream: those of the turn, behind the reasoning item where
/// there is one.
pub open spec fn stream_output(
    ids: IdSource,
    output: StreamOutputView,
    reasoning: Option<JsonView>,
) -> Seq<JsonView> {
    with_reasoning(JsonView::Array(output_items(ids.after(1), output)), reasoning)->Array_0
}

/// The completed response object of a stream.
pub open spec fn stream_response(
    head: ResponseHead,
    items: Seq<JsonView>,
    usage: TokenUsage,
) -> JsonView {
    response_object(head, "completed"@, JsonView::Array(items), usage_object(usage))
}

/// The text of the stream of one response.
pub open spec fn stream_text(
    head: ResponseHead,
    items: Seq<JsonView>,
    usage: TokenUsage,
) -> Seq<char> {
    rendered(
        response_events(
            response_object(head, "in_progress"@, no_items(), JsonView::Null),
            stream_response(head, items, usage),
            items,
        ),
        None,
    )
}

/// The stream of a response: its text and the completed response object, which
/// carries the same identifiers.
///
/// The stream is built after the one generation, so a text message carries one
/// delta with the whole text, and no event reports a failure.
pub fn build_stream_body_with_conversation(
    ids: &mut IdSource,
    now: u64,
    model: &str,
    output: StreamOutput<'_>,
    reasoning: Option<&Json>,
    echo: &ToolEcho,
    metadata: Option<&Json>,
    conversation: Option<&str>,
    controls: &ResponseControls,
    usage: &TokenUsage,
) -> (stream: (String, Json))
    requires
        usage.fits(),
    ensures
        ({
            let head = ResponseHead {
                id: old(ids).id("resp_"@, 0),
                created_at: now,
                model: model@,
                metadata: metadata.deep_view(),
                conversation: conversation.deep_view(),
                echo: echo@,
                controls: controls@,
            };
            let items = stream_output(*old(ids), output@, reasoning.deep_view());
            &&& stream.0@ == stream_text(head, items, *usage)
            &&& stream.1@ == stream_response(head, items, *usage)
        }),
        *final(ids) == old(ids).after(1 + items_ids(output@)),
{
    let ghost start = *ids;
    let response_id = ids.new_id("resp_");
    proof {
        lemma_after(start, 1, items_ids(output@));
    }
    let turn = array_of(stream_items(ids, output));
    let whole = prepend_reasoning(turn, reasoning);
    let items = match whole {
        Json::Array(items) => items,
        _ => Vec::new(),
    };
    assert(values_view(items@) =~= stream_output(start, output@, reasoning.deep_view()));
    let in_progress = build_response_object(
        response_id.as_str(),
        now,
        "in_progress",
        model,
        metadata,
        conversation,
        echo,
        controls,
        empty_array(),
        Json::Null,
    );
    let completed = build_response_object(
        response_id.as_str(),
        now,
        "completed",
        model,
        metadata,
        conversation,
        echo,
        controls,
        array_of(clone_values(&items)),
        usage_json(usage),
    );
    let events = build_events(in_progress, completed.clone(), &items);
    (render_events(&events, None), completed)
}

/// The response object as the stream showed it before its output.
pub open spec fn as_in_progress(fields: Map<Seq<char>, JsonView>) -> JsonView {
    JsonView::Object(
        fields.insert("status"@, JsonView::Str("in_progress"@)).insert(
            "output"@,
            no_items(),
        ).insert("usage"@, JsonView::Null),
    )
}

/// A response that can be replayed: it has an identifier, a time of creation and
/// an output.
pub open spec fn can_replay(response: JsonView) -> bool {
    &&& field(response, "output"@) matches Some(JsonView::Array(_))
    &&& text_field(response, "id"@) is Some
    &&& field(response, "created_at"@) matches Some(JsonView::Number(NumberView::PosInt(_)))
}

/// The text of the replay of a response.
pub open spec fn replayed(response: JsonView, starting_after: Option<u32>) -> Seq<char> {
    rendered(
        response_events(
            as_in_progress(response->Object_0),
            response,
            field(response, "output"@)->0->Array_0,
        ),
        starting_after,
    )
}

/// Replays the stream of a stored response from its object alone. A response
/// without an identifier, a time of creation or an output has no replay.
pub fn replay_stream_body(response: &Json, starting_after: Option<u32>) -> (body: Option<String>)
    ensures
        body is Some <==> can_replay(response@),
        body matches Some(text) ==> text@ == replayed(response@, starting_after),
{
    let fields = match response {
        Json::Object(fields) => fields,
        _ => {
            return None;
        },
    };
    let items = match fields.get("output") {
        Some(Json::Array(items)) => items,
        _ => {
            return None;
        },
    };
    match response.get_str("id") {
        Some(_) => {},
        None => {
            return None;
        },
    }
    match fields.get("created_at") {
        Some(Json::Number(number)) => match number.as_u64() {
            Some(_) => {},
            None => {
                return None;
            },
        },
        _ => {
            return None;
        },
    }
    let in_progress = Json::Object(
        fields.clone().with("status", Json::text("in_progress")).with(
            "output",
            empty_array(),
        ).with("usage", Json::Null),
    );
    proof {
        let output = Json::Array(*items);
        assert(output@->Array_0 =~= values_view(items@));
        assert(field(response@, "output"@) == Some(output@));
    }
    let events = build_events(in_progress, response.clone(), items);
    Some(render_events(&events, starting_after))
}

/// Every event carries its type, and its number is its place in the list.
pub proof fn law_events_are_numbered(
    in_progress: JsonView,
    completed: JsonView,
    items: Seq<JsonView>,
    place: int,
)
    requires
        0 <= place < response_events(in_progress, completed, items).len(),
        place <= u64::MAX,
    ensures
        ({
            let event = response_events(in_progress, completed, items)[place];
            &&& sequence_of(event.1) == place
            &&& text_field(event.1, "type"@) == Some(event.0)
        }),
{
    reveal_strlit("type");
    reveal_strlit("sequence_number");
    assert("type"@.len() != "sequence_number"@.len());
}

/// The type of an event between the first two and the last one.
pub open spec fn is_item_event(kind: Seq<char>) -> bool {
    ||| kind == "response.output_item.added"@
    ||| kind == "response.content_part.added"@
    ||| kind == "response.output_text.delta"@
    ||| kind == "response.output_text.done"@
    ||| kind == "response.content_part.done"@
    ||| kind == "response.reasoning_text.delta"@
    ||| kind == "response.reasoning_text.done"@
    ||| kind == "response.function_call_arguments.delta"@
    ||| kind == "response.function_call_arguments.done"@
    ||| kind == "response.output_item.done"@
}

proof fn lemma_item_events(items: Seq<JsonView>)
    ensures
        forall|i: int|
            0 <= i < items_events(items).len() ==> is_item_event(
                (#[trigger] items_events(items)[i]).kind,
            ),
    decreases items.len(),
{
    if items.len() > 0 {
        let before = items_events(items.drop_last());
        lemma_item_events(items.drop_last());
        assert forall|i: int| 0 <= i < items_events(items).len() implies is_item_event(
            (#[trigger] items_events(items)[i]).kind,
        ) by {
            if i < before.len() {
                assert(items_events(items)[i] == before[i]);
            }
        }
    }
}

/// The stream opens with `response.created` and `response.in_progress` and closes
/// with `response.completed`. Only events of output items stand between, so none
/// reports a failure.
pub proof fn law_event_order(in_progress: JsonView, completed: JsonView, items: Seq<JsonView>)
    ensures
        ({
            let events = response_events(in_progress, completed, items);
            &&& events.len() == items_events(items).len() + 3
            &&& events[0].0 == "response.created"@
            &&& events[1].0 == "response.in_progress"@
            &&& events.last().0 == "response.completed"@
            &&& forall|i: int|
                2 <= i < events.len() - 1 ==> is_item_event((#[trigger] events[i]).0)
            &&& forall|i: int| 0 <= i < events.len() ==> (#[trigger] events[i]).0 != "response.failed"@
        }),
{
    lemma_item_events(items);
    reveal_strlit("response.failed");
    reveal_strlit("response.created");
    reveal_strlit("response.in_progress");
    reveal_strlit("response.completed");
    reveal_strlit("response.output_item.added");
    reveal_strlit("response.content_part.added");
    reveal_strlit("response.output_text.delta");
    reveal_strlit("response.output_text.done");
    reveal_strlit("response.content_part.done");
    reveal_strlit("response.reasoning_text.delta");
    reveal_strlit("response.reasoning_text.done");
    reveal_strlit("response.function_call_arguments.delta");
    reveal_strlit("response.function_call_arguments.done");
    reveal_strlit("response.output_item.done");
    assert forall|kind: Seq<char>| is_item_event(kind) implies kind != "response.failed"@ by {
        assert("response.failed"@.len() == 15);
    }
    assert("response.created"@.len() == 16);
    assert("response.in_progress"@.len() == 20);
    assert("response.completed"@.len() == 18);
    let events = response_events(in_progress, completed, items);
    let drafts = event_drafts(in_progress, completed, items);
    assert forall|i: int| 2 <= i < events.len() - 1 implies is_item_event(
        (#[trigger] events[i]).0,
    ) by {
        assert(drafts[i] == items_events(items)[i - 2]);
    }
}

/// A replay of a completed stream is that stream, letter for letter.
pub proof fn law_replay_repeats_the_stream(
    head: ResponseHead,
    items: Seq<JsonView>,
    usage: TokenUsage,
)
    ensures
        can_replay(stream_response(head, items, usage)),
        replayed(stream_response(head, items, usage), None) == stream_text(head, items, usage),
{
    reveal_strlit("id");
    reveal_strlit("object");
    reveal_strlit("created_at");
    reveal_strlit("status");
    reveal_strlit("model");
    reveal_strlit("metadata");
    reveal_strlit("parallel_tool_calls");
    reveal_strlit("tool_choice");
    reveal_strlit("tools");
    reveal_strlit("output");
    reveal_strlit("usage");
    reveal_strlit("conversation");
    reveal_strlit("temperature");
    reveal_strlit("top_p");
    reveal_strlit("max_output_tokens");
    reveal_strlit("text");
    assert("output"@[0] == 'o' && "object"@[1] == 'b' && "output"@[1] == 'u');
    assert("status"@[0] == 's');
    assert("usage"@[0] == 'u' && "model"@[0] == 'm' && "top_p"@[0] == 't' && "tools"@[0] == 't');
    assert("created_at"@.len() == 10);
    assert("id"@.len() == 2 && "text"@.len() == 4 && "model"@.len() == 5 && "tools"@.len() == 5);
    assert("usage"@.len() == 5 && "top_p"@.len() == 5 && "object"@.len() == 6);
    assert("output"@.len() == 6 && "status"@.len() == 6 && "metadata"@.len() == 8);
    assert("tool_choice"@.len() == 11 && "temperature"@.len() == 11);
    assert("conversation"@.len() == 12 && "max_output_tokens"@.len() == 17);
    assert("parallel_tool_calls"@.len() == 19);
    let response = stream_response(head, items, usage);
    assert(field(response, "id"@) == Some(JsonView::Str(head.id)));
    assert(field(response, "created_at"@) == Some(unsigned(head.created_at as nat)));
    assert(field(response, "output"@) == Some(JsonView::Array(items)));
    let before = response_object(head, "in_progress"@, no_items(), JsonView::Null);
    assert(as_in_progress(response->Object_0)->Object_0 =~= before->Object_0);
}

proof fn lemma_all_dropped(events: Seq<(Seq<char>, JsonView)>, start: u32)
    requires
        forall|i: int| 0 <= i < events.len() ==> !stays((#[trigger] events[i]).1, Some(start)),
    ensures
        rendered(events, Some(start)) == Seq::<char>::empty(),
    decreases events.len(),
{
    if events.len() > 0 {
        lemma_all_dropped(events.drop_last(), start);
    }
}

proof fn lemma_suffix(events: Seq<(Seq<char>, JsonView)>, start: u32, from: int)
    requires
        0 <= from <= events.len(),
        forall|i: int| 0 <= i < from ==> !stays((#[trigger] events[i]).1, Some(start)),
        forall|i: int| from <= i < events.len() ==> stays((#[trigger] events[i]).1, Some(start)),
    ensures
        rendered(events, Some(start)) == rendered(events.skip(from), None),
    decreases events.len(),
{
    if from == events.len() {
        lemma_all_dropped(events, start);
        assert(events.skip(from) =~= Seq::empty());
    } else {
        lemma_suffix(events.drop_last(), start, from);
        assert(events.skip(from).drop_last() =~= events.drop_last().skip(from));
        assert(events.skip(from).last() == events.last());
    }
}

/// A stream that starts after a number is the rest of the whole stream: exactly
/// the events with a greater number, each with the number it had.
pub proof fn law_starting_after_gives_the_rest(
    in_progress: JsonView,
    completed: JsonView,
    items: Seq<JsonView>,
    start: u32,
)
    requires
        response_events(in_progress, completed, items).len() <= u64::MAX,
    ensures
        ({
            let events = response_events(in_progress, completed, items);
            rendered(events, Some(start)) == if start < events.len() {
                rendered(events.skip(start + 1), None)
            } else {
                Seq::<char>::empty()
            }
        }),
{
    let events = response_events(in_progress, completed, items);
    assert forall|i: int| 0 <= i < events.len() implies sequence_of((#[trigger] events[i]).1)
        == i by {
        law_events_are_numbered(in_progress, completed, items, i);
    }
    if start < events.len() {
        lemma_suffix(events, start, start + 1);
    } else {
        lemma_all_dropped(events, start);
    }
}

} // verus!
