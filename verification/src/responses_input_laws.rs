//! What holds of inputs: the items that are stored for an input read back as the
//! same input, and what a response puts out can be put in again.

use vstd::prelude::*;

use crate::json::{field, first_unknown, no_fields, text_field, unknown_keys, JsonView};
use crate::records::{
    lemma_record_is_sound,
    lemma_record_of_object,
    lemma_record_refuses,
    record_fields,
    some_text,
};
use crate::responses_input::{
    call_json,
    call_model,
    call_of,
    content_json,
    given_text,
    item_json,
    item_reader,
    items_of,
    message_json,
    message_model,
    message_of,
    message_text_of,
    one_part_message,
    opening,
    output_as_input,
    output_json,
    output_model,
    output_of,
    part_json,
    part_reader,
    part_text,
    part_texter,
    parts_json,
    prompt_line,
    prompt_liner,
    prompt_of,
    read_content,
    read_input,
    read_input_items,
    read_item,
    read_items,
    read_part,
    read_parts,
    reasoning_json,
    reasoning_model,
    reasoning_of,
    stored_as_input,
    stored_part_mapper,
    system_line,
    trace_text,
    trace_texter,
    typed_text,
    user_line,
    ContentView,
    FunctionCallOutputView,
    FunctionCallView,
    InputItemView,
    InputView,
    MessageView,
    PartView,
    PromptLine,
    PromptTexts,
    ReasoningView,
};
use crate::responses_shape::{function_call, message, reasoning, text_part};
use crate::seqs::{
    filter_map,
    lemma_filter_map_append,
    lemma_try_map_all,
    lemma_try_map_append,
    lemma_try_map_ok,
    try_map,
};
use crate::text::joined;

verus! {

/// The field names of input items differ by their length or one of their first
/// two characters.
proof fn lemma_item_keys()
    ensures
        "type"@.len() == 4 && "type"@[0] == 't' && "type"@[1] == 'y',
        "text"@.len() == 4 && "text"@[0] == 't' && "text"@[1] == 'e',
        "name"@.len() == 4 && "name"@[0] == 'n',
        "role"@.len() == 4 && "role"@[0] == 'r',
        "id"@.len() == 2,
        "status"@.len() == 6 && "status"@[0] == 's',
        "output"@.len() == 6 && "output"@[0] == 'o',
        "call_id"@.len() == 7 && "call_id"@[0] == 'c' && "call_id"@[1] == 'a',
        "content"@.len() == 7 && "content"@[0] == 'c' && "content"@[1] == 'o',
        "summary"@.len() == 7 && "summary"@[0] == 's',
        "arguments"@.len() == 9,
        "encrypted_content"@.len() == 17,
        "annotations"@.len() == 11,
{
    reveal_strlit("type");
    reveal_strlit("text");
    reveal_strlit("name");
    reveal_strlit("role");
    reveal_strlit("id");
    reveal_strlit("status");
    reveal_strlit("output");
    reveal_strlit("call_id");
    reveal_strlit("content");
    reveal_strlit("summary");
    reveal_strlit("arguments");
    reveal_strlit("encrypted_content");
    reveal_strlit("annotations");
}

/// A part as reading gives it: its other fields are not `type` or `text`.
pub open spec fn proper_part(part: PartView) -> bool {
    !part.extra.contains_key("type"@) && !part.extra.contains_key("text"@)
}

/// Parts as reading gives them.
pub open spec fn proper_parts(parts: Seq<PartView>) -> bool {
    forall|i: int| 0 <= i < parts.len() ==> proper_part(#[trigger] parts[i])
}

/// A field that is not there rather than `null`.
pub open spec fn not_null(value: Option<JsonView>) -> bool {
    value != Some(JsonView::Null)
}

/// An item as reading gives it.
pub open spec fn proper_item(item: InputItemView) -> bool {
    match item {
        InputItemView::Message(message) => match message.content {
            ContentView::Text(_) => true,
            ContentView::Parts(parts) => proper_parts(parts),
        },
        InputItemView::FunctionCall(_) => true,
        InputItemView::FunctionCallOutput(output) => not_null(output.output),
        InputItemView::Reasoning(reasoning) => not_null(reasoning.summary) && not_null(
            reasoning.encrypted_content,
        ) && (reasoning.content matches Some(parts) ==> proper_parts(parts)),
    }
}

/// An input as reading gives it.
pub open spec fn proper_input(input: InputView) -> bool {
    match input {
        InputView::Text(_) => true,
        InputView::Messages(items) => forall|i: int|
            0 <= i < items.len() ==> proper_item(#[trigger] items[i]),
    }
}

proof fn lemma_part_reads_back(part: PartView)
    requires
        proper_part(part),
    ensures
        read_part(part_json(part)) == Ok::<PartView, ()>(part),
{
    lemma_item_keys();
    let object = part_json(part)->Object_0;
    assert(object.contains_key("type"@) && object["type"@] == JsonView::Str(part.kind));
    assert(object.remove("type"@).remove("text"@) =~= part.extra);
    assert(some_text(object, "text"@) == part.text);
}

proof fn lemma_parts_read_back(parts: Seq<PartView>)
    requires
        proper_parts(parts),
    ensures
        read_parts(parts_json(parts)) == Ok::<Seq<PartView>, ()>(parts),
{
    let items = parts_json(parts)->Array_0;
    assert forall|i: int| 0 <= i < items.len() implies part_reader()(#[trigger] items[i]) == Ok::<
        PartView,
        (),
    >(parts[i]) by {
        lemma_part_reads_back(parts[i]);
    }
    lemma_try_map_all(part_reader(), items);
    assert(try_map(part_reader(), items)->Ok_0 =~= parts);
}

proof fn lemma_message_reads_back(item: MessageView)
    requires
        proper_item(InputItemView::Message(item)),
    ensures
        read_item(item_json(InputItemView::Message(item))) == Ok::<InputItemView, Seq<char>>(
            InputItemView::Message(item),
        ),
{
    lemma_item_keys();
    let model = message_model();
    let object = message_json(item);
    if let ContentView::Parts(parts) = item.content {
        lemma_parts_read_back(parts);
    }
    assert(read_content(content_json(item.content)) == Ok::<ContentView, ()>(item.content));
    assert forall|key: Seq<char>| object.contains_key(key) implies model.fields.contains(key) && (
    model.fault)(key, #[trigger] object[key]) is None by {
        assert(model.fields[0] == "role"@ && model.fields[1] == "content"@);
    }
    lemma_record_of_object(model, object);
    assert(message_of(object) == item);
}

proof fn lemma_call_reads_back(item: FunctionCallView)
    ensures
        read_item(item_json(InputItemView::FunctionCall(item))) == Ok::<InputItemView, Seq<char>>(
            InputItemView::FunctionCall(item),
        ),
{
    lemma_item_keys();
    let model = call_model();
    let object = call_json(item);
    lemma_record_refuses(message_model(), object, "type"@);
    assert forall|key: Seq<char>| object.contains_key(key) implies model.fields.contains(key) && (
    model.fault)(key, #[trigger] object[key]) is None by {
        assert(model.fields[0] == "type"@ && model.fields[1] == "id"@ && model.fields[2]
            == "status"@ && model.fields[3] == "call_id"@ && model.fields[4] == "name"@
            && model.fields[5] == "arguments"@);
    }
    lemma_record_of_object(model, object);
    assert(call_of(object) =~= item);
}

proof fn lemma_output_reads_back(item: FunctionCallOutputView)
    requires
        not_null(item.output),
    ensures
        read_item(item_json(InputItemView::FunctionCallOutput(item))) == Ok::<
            InputItemView,
            Seq<char>,
        >(InputItemView::FunctionCallOutput(item)),
{
    lemma_item_keys();
    let model = output_model();
    let object = output_json(item);
    lemma_record_refuses(message_model(), object, "type"@);
    assert(call_model().required[2] == "name"@);
    lemma_record_refuses(call_model(), object, "name"@);
    assert forall|key: Seq<char>| object.contains_key(key) implies model.fields.contains(key) && (
    model.fault)(key, #[trigger] object[key]) is None by {
        assert(model.fields[0] == "type"@ && model.fields[1] == "id"@ && model.fields[2]
            == "status"@ && model.fields[3] == "call_id"@ && model.fields[4] == "output"@);
    }
    lemma_record_of_object(model, object);
    assert(output_of(object) =~= item);
}

proof fn lemma_reasoning_reads_back(item: ReasoningView)
    requires
        proper_item(InputItemView::Reasoning(item)),
    ensures
        read_item(item_json(InputItemView::Reasoning(item))) == Ok::<InputItemView, Seq<char>>(
            InputItemView::Reasoning(item),
        ),
{
    lemma_item_keys();
    let model = reasoning_model();
    let object = reasoning_json(item);
    lemma_record_refuses(message_model(), object, "type"@);
    assert(call_model().required[2] == "name"@);
    lemma_record_refuses(call_model(), object, "name"@);
    assert(output_model().required[1] == "call_id"@);
    lemma_record_refuses(output_model(), object, "call_id"@);
    if let Some(parts) = item.content {
        lemma_parts_read_back(parts);
    }
    assert forall|key: Seq<char>| object.contains_key(key) implies model.fields.contains(key) && (
    model.fault)(key, #[trigger] object[key]) is None by {
        assert(model.fields[0] == "type"@ && model.fields[1] == "id"@ && model.fields[2]
            == "status"@ && model.fields[3] == "summary"@ && model.fields[4] == "content"@
            && model.fields[5] == "encrypted_content"@);
    }
    lemma_record_of_object(model, object);
    assert(reasoning_of(object) =~= item);
}

/// The JSON form of an item reads back as the item.
pub proof fn law_item_reads_back(item: InputItemView)
    requires
        proper_item(item),
    ensures
        read_item(item_json(item)) == Ok::<InputItemView, Seq<char>>(item),
{
    match item {
        InputItemView::Message(message) => lemma_message_reads_back(message),
        InputItemView::FunctionCall(call) => lemma_call_reads_back(call),
        InputItemView::FunctionCallOutput(output) => lemma_output_reads_back(output),
        InputItemView::Reasoning(reasoning) => lemma_reasoning_reads_back(reasoning),
    }
}

proof fn lemma_read_parts_are_proper(value: JsonView)
    ensures
        read_parts(value) matches Ok(parts) ==> proper_parts(parts),
{
    if let JsonView::Array(items) = value {
        lemma_try_map_ok(part_reader(), items);
        if let Ok(parts) = read_parts(value) {
            assert forall|i: int| 0 <= i < parts.len() implies proper_part(#[trigger] parts[i]) by {
                assert(part_reader()(items[i]) == Ok::<PartView, ()>(parts[i]));
            }
        }
    }
}

/// Whatever is read as an input is proper: this is no condition on requests.
pub proof fn law_read_input_is_proper(value: JsonView)
    ensures
        read_input(value) matches Ok(input) ==> proper_input(input),
{
    if let JsonView::Array(items) = value {
        if let Ok(input) = read_input(value) {
            let views = input->Messages_0;
            lemma_try_map_ok(item_reader(), items);
            assert forall|i: int| 0 <= i < views.len() implies proper_item(#[trigger] views[i]) by {
                assert(item_reader()(items[i]) == Ok::<InputItemView, Seq<char>>(views[i]));
                lemma_read_item_is_proper(items[i]);
            }
        }
    }
}

proof fn lemma_read_item_is_proper(value: JsonView)
    ensures
        read_item(value) matches Ok(item) ==> proper_item(item),
{
    lemma_item_keys();
    if record_fields(message_model(), value) is Ok {
        let model = message_model();
        let fields = record_fields(model, value)->Ok_0;
        assert(model.fields[0] == model.required[0] && model.fields[1] == model.required[1]);
        lemma_record_is_sound(model, value);
        assert(fields.contains_key(model.required[1]));
        assert((model.fault)("content"@, fields["content"@]) is None);
        lemma_read_parts_are_proper(fields["content"@]);
    } else if record_fields(call_model(), value) is Ok {
    } else if record_fields(output_model(), value) is Ok {
    } else if record_fields(reasoning_model(), value) is Ok {
        let model = reasoning_model();
        let fields = record_fields(model, value)->Ok_0;
        assert(model.fields[0] == model.required[0]);
        lemma_record_is_sound(model, value);
        if fields.contains_key("content"@) {
            assert((model.fault)("content"@, fields["content"@]) is None);
            lemma_read_parts_are_proper(fields["content"@]);
        }
    }
}

/// The stored items of an input list read back as that list.
proof fn lemma_items_read_back(items: Seq<InputItemView>)
    requires
        proper_input(InputView::Messages(items)),
    ensures
        read_items(items_of(InputView::Messages(items))) == Ok::<Seq<InputItemView>, Seq<char>>(
            items,
        ),
{
    let values = items_of(InputView::Messages(items));
    assert forall|i: int| 0 <= i < values.len() implies item_reader()(#[trigger] values[i]) == Ok::<
        InputItemView,
        Seq<char>,
    >(items[i]) by {
        law_item_reads_back(items[i]);
    }
    lemma_try_map_all(item_reader(), values);
    assert(try_map(item_reader(), values)->Ok_0 =~= items);
}

proof fn lemma_no_extra(extra: Map<Seq<char>, JsonView>)
    requires
        extra == no_fields(),
    ensures
        first_unknown(extra, Seq::empty()) is None,
{
    assert forall|key: Seq<char>| !unknown_keys(extra, Seq::empty()).contains(key) by {}
}

/// A message with one text part is read as such.
proof fn lemma_one_part_message(role: Seq<char>, kind: Seq<char>, text: Seq<char>)
    ensures
        read_item(one_part_message(role, kind, text)) == Ok::<InputItemView, Seq<char>>(
            InputItemView::Message(
                MessageView {
                    role,
                    content: ContentView::Parts(
                        seq![PartView { kind, text: Some(text), extra: no_fields() }],
                    ),
                },
            ),
        ),
{
    let part = PartView { kind, text: Some(text), extra: no_fields() };
    let item = MessageView { role, content: ContentView::Parts(seq![part]) };
    assert(proper_part(part));
    lemma_message_reads_back(item);
    assert(part_json(part)->Object_0 =~= typed_text(kind, text)->Object_0);
    assert(parts_json(seq![part])->Array_0 =~= seq![typed_text(kind, text)]);
    assert(item_json(InputItemView::Message(item)) == one_part_message(role, kind, text));
}

/// The prompt line of a message with one text part.
proof fn lemma_one_part_line(role: Seq<char>, kind: Seq<char>, text: Seq<char>)
    requires
        role == "user"@ || role == "assistant"@,
        kind == "input_text"@ || kind == "output_text"@,
    ensures
        prompt_line(
            InputItemView::Message(
                MessageView {
                    role,
                    content: ContentView::Parts(
                        seq![PartView { kind, text: Some(text), extra: no_fields() }],
                    ),
                },
            ),
        ) == Ok::<PromptLine, Seq<char>>(PromptLine::User(text)),
{
    let part = PartView { kind, text: Some(text), extra: no_fields() };
    let parts = seq![part];
    lemma_no_extra(part.extra);
    lemma_try_map_all(part_texter(), parts);
    assert(try_map(part_texter(), parts)->Ok_0 =~= seq![text]);
    reveal_strlit("user");
    reveal_strlit("assistant");
    reveal_strlit("system");
    reveal_strlit("developer");
    assert("user"@.len() == 4 && "system"@.len() == 6 && "assistant"@.len() == 9);
    assert("developer"@.len() == 9 && "developer"@[0] == 'd' && "assistant"@[0] == 'a');
}

/// The items that are stored for a request give the same prompt as its input: a
/// later request that builds on them sees what the model saw.
pub proof fn law_stored_input_gives_the_same_prompt(
    instructions: Option<Seq<char>>,
    input: InputView,
)
    requires
        proper_input(input),
    ensures
        read_input_items(items_of(input)) is Ok,
        prompt_of(instructions, read_input_items(items_of(input))->Ok_0) == prompt_of(
            instructions,
            input,
        ),
{
    match input {
        InputView::Messages(items) => lemma_items_read_back(items),
        InputView::Text(text) => {
            let part = PartView { kind: "input_text"@, text: Some(text), extra: no_fields() };
            let item = InputItemView::Message(
                MessageView { role: "user"@, content: ContentView::Parts(seq![part]) },
            );
            let values = items_of(input);
            lemma_one_part_message("user"@, "input_text"@, text);
            lemma_try_map_all(item_reader(), values);
            assert(try_map(item_reader(), values)->Ok_0 =~= seq![item]);
            lemma_one_part_line("user"@, "input_text"@, text);
            lemma_try_map_all(prompt_liner(), seq![item]);
            let lines = seq![PromptLine::User(text)];
            assert(try_map(prompt_liner(), seq![item])->Ok_0 =~= lines);
            assert(lines.drop_last() =~= Seq::empty());
            assert(filter_map(system_line(), lines.drop_last()) =~= Seq::empty());
            assert(filter_map(user_line(), lines.drop_last()) =~= Seq::empty());
            assert(filter_map(user_line(), lines) =~= seq![text]);
            assert(filter_map(system_line(), lines) =~= Seq::<Seq<char>>::empty());
            let first = opening(instructions);
            assert(first + filter_map(system_line(), lines) =~= first);
        },
    }
}

/// The message of a response can be put in again, from the response and from a
/// conversation, and adds its text to the user text.
pub proof fn law_output_message_continues(id: Seq<char>, text: Seq<char>)
    ensures
        ({
            let item = message(id, "completed"@, Some(text));
            let input = one_part_message("assistant"@, "output_text"@, text);
            &&& output_as_input(item) == Some(input)
            &&& stored_as_input(item) == Some(input)
            &&& read_item(input) is Ok
            &&& prompt_line(read_item(input)->Ok_0) == Ok::<PromptLine, Seq<char>>(
                PromptLine::User(text),
            )
        }),
{
    lemma_item_keys();
    let item = message(id, "completed"@, Some(text));
    let input = one_part_message("assistant"@, "output_text"@, text);
    let parts = seq![text_part(text)];
    assert(field(item, "content"@) == Some(JsonView::Array(parts)));
    assert(text_field(item, "type"@) == Some("message"@));
    assert(text_field(item, "role"@) == Some("assistant"@));
    assert(text_field(parts[0], "text"@) == Some(text));
    assert(text_field(parts[0], "type"@) == Some("output_text"@));
    assert(message_text_of(item) == text);
    assert(output_as_input(item)->0 == input);
    lemma_try_map_all(stored_part_mapper(), parts);
    assert(try_map(stored_part_mapper(), parts)->Ok_0 =~= seq![typed_text("output_text"@, text)]);
    assert(stored_as_input(item)->0 == input);
    lemma_one_part_message("assistant"@, "output_text"@, text);
    lemma_one_part_line("assistant"@, "output_text"@, text);
}

/// A function call of a response can be put in again, from the response and from
/// a conversation, and is told to the model with its name, its identifier and its
/// arguments.
pub proof fn law_output_call_continues(
    id: Seq<char>,
    call_id: Seq<char>,
    name: Seq<char>,
    arguments: Seq<char>,
)
    ensures
        ({
            let item = function_call(id, call_id, name, arguments, "completed"@);
            let input = JsonView::Object(
                call_json(
                    FunctionCallView {
                        kind: "function_call"@,
                        id: None,
                        status: None,
                        call_id,
                        name,
                        arguments: Some(arguments),
                    },
                ),
            );
            &&& output_as_input(item) == Some(input)
            &&& stored_as_input(item) == Some(input)
            &&& read_item(input) is Ok
            &&& prompt_line(read_item(input)->Ok_0) == Ok::<PromptLine, Seq<char>>(
                PromptLine::User(
                    "Tool call `"@ + name + "` ("@ + call_id + ") with arguments "@ + arguments,
                ),
            )
        }),
{
    lemma_item_keys();
    let item = function_call(id, call_id, name, arguments, "completed"@);
    let call = FunctionCallView {
        kind: "function_call"@,
        id: None,
        status: None,
        call_id,
        name,
        arguments: Some(arguments),
    };
    reveal_strlit("function_call");
    reveal_strlit("message");
    assert("function_call"@.len() == 13 && "message"@.len() == 7);
    assert(text_field(item, "type"@) == Some("function_call"@));
    assert(text_field(item, "role"@) is None);
    assert(field(item, "call_id"@) == Some(JsonView::Str(call_id)));
    assert(field(item, "name"@) == Some(JsonView::Str(name)));
    assert(field(item, "arguments"@) == Some(JsonView::Str(arguments)));
    lemma_call_reads_back(call);
}

/// A reasoning item of a response can be put in again and adds its trace to the
/// user text.
pub proof fn law_output_reasoning_continues(
    id: Seq<char>,
    trace: Seq<char>,
    part_type: Seq<char>,
)
    requires
        part_type == "reasoning_text"@ || part_type == "output_text"@,
        trace.len() > 0,
    ensures
        ({
            let item = reasoning(id, trace, part_type);
            &&& output_as_input(item) == Some(item)
            &&& stored_as_input(item) == Some(item)
            &&& read_item(item) is Ok
            &&& prompt_line(read_item(item)->Ok_0) == Ok::<PromptLine, Seq<char>>(
                PromptLine::User(trace),
            )
        }),
{
    lemma_item_keys();
    let item = reasoning(id, trace, part_type);
    reveal_strlit("reasoning");
    reveal_strlit("function_call");
    reveal_strlit("function_call_output");
    reveal_strlit("message");
    assert("reasoning"@.len() == 9 && "function_call"@.len() == 13 && "message"@.len() == 7
        && "function_call_output"@.len() == 20);
    assert(text_field(item, "type"@) == Some("reasoning"@));
    assert(text_field(item, "role"@) is None);
    let object = item->Object_0;
    let part = PartView { kind: part_type, text: Some(trace), extra: no_fields() };
    let parts = seq![part];
    assert(part_json(part)->Object_0 =~= typed_text(part_type, trace)->Object_0);
    lemma_parts_read_back(parts);
    assert(parts_json(parts)->Array_0 =~= seq![typed_text(part_type, trace)]);
    let content = object["content"@];
    assert(content == parts_json(parts));
    let model = reasoning_model();
    lemma_record_refuses(message_model(), object, "type"@);
    assert(call_model().required[2] == "name"@);
    lemma_record_refuses(call_model(), object, "name"@);
    assert(output_model().required[1] == "call_id"@);
    lemma_record_refuses(output_model(), object, "call_id"@);
    assert forall|key: Seq<char>| object.contains_key(key) implies model.fields.contains(key) && (
    model.fault)(key, #[trigger] object[key]) is None by {
        assert(model.fields[0] == "type"@ && model.fields[1] == "id"@ && model.fields[2]
            == "status"@ && model.fields[3] == "summary"@ && model.fields[4] == "content"@
            && model.fields[5] == "encrypted_content"@);
    }
    lemma_record_of_object(model, object);
    let view = reasoning_of(object);
    assert(view.content == Some(parts));
    lemma_no_extra(part.extra);
    lemma_try_map_all(trace_texter(), parts);
    let found = seq![Some(trace)];
    assert(try_map(trace_texter(), parts)->Ok_0 =~= found);
    assert(found.drop_last() =~= Seq::empty());
    assert(filter_map(given_text(), found.drop_last()) =~= Seq::empty());
    assert(filter_map(given_text(), found) =~= seq![trace]);
    assert(joined(seq![trace], "\n"@) == trace);
}

/// No field of a content part is ignored: a part whose text reaches the prompt has
/// no other field than its type and its text.
pub proof fn law_no_part_field_is_ignored(part: PartView, key: Seq<char>)
    requires
        part_text(part) is Ok || trace_text(part) is Ok,
    ensures
        !part.extra.contains_key(key),
{
    assert(!unknown_keys(part.extra, Seq::empty()).contains(key));
}

/// What a list of JSON items adds to the prompt, item by item.
pub open spec fn lines_of(items: Seq<JsonView>) -> Result<Seq<PromptLine>, Seq<char>> {
    match read_items(items) {
        Ok(read) => try_map(prompt_liner(), read),
        Err(error) => Err(error),
    }
}

/// Where earlier items are put before new ones, the prompt says what the earlier
/// ones say and then what the new ones say: nothing is lost and nothing changes its
/// place.
pub proof fn law_history_comes_first(
    instructions: Option<Seq<char>>,
    history: Seq<JsonView>,
    current: Seq<JsonView>,
)
    requires
        lines_of(history) is Ok,
        lines_of(current) is Ok,
    ensures
        ({
            let before = lines_of(history)->Ok_0;
            let new = lines_of(current)->Ok_0;
            &&& read_input_items(history + current) is Ok
            &&& prompt_of(instructions, read_input_items(history + current)->Ok_0) == Ok::<
                PromptTexts,
                Seq<char>,
            >(
                PromptTexts {
                    system: joined(
                        opening(instructions) + (filter_map(system_line(), before) + filter_map(
                            system_line(),
                            new,
                        )),
                        "\n"@,
                    ),
                    user: joined(
                        filter_map(user_line(), before) + filter_map(user_line(), new),
                        "\n"@,
                    ),
                },
            )
        }),
{
    let first = read_items(history)->Ok_0;
    let second = read_items(current)->Ok_0;
    lemma_try_map_append(item_reader(), history, current);
    lemma_try_map_append(prompt_liner(), first, second);
    let before = lines_of(history)->Ok_0;
    let new = lines_of(current)->Ok_0;
    lemma_filter_map_append(system_line(), before, new);
    lemma_filter_map_append(user_line(), before, new);
}

} // verus!
