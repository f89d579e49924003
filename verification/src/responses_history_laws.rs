//! What a later request sees of an earlier one: nothing that was put in or put out is
//! lost, and nothing changes what it says.

use vstd::prelude::*;

use crate::json::{field, no_fields, text_field, JsonView};
use crate::responses_input::{
    call_json,
    item_json,
    item_reader,
    items_of,
    message_json,
    output_as_input,
    output_json,
    output_mapper,
    outputs_as_input,
    part_json,
    part_texter,
    prompt_line,
    read_input,
    read_input_items,
    read_item,
    reasoning_json,
    stored_as_input,
    stored_items,
    stored_mapper,
    stored_part_mapper,
    typed_text,
    ContentView,
    FunctionCallOutputView,
    FunctionCallView,
    InputItemView,
    InputView,
    MessageView,
    PartView,
};
use crate::responses_input_laws::{law_item_reads_back, law_no_part_field_is_ignored, proper_item};
use crate::seqs::{
    filter_map,
    lemma_filter_map_append,
    lemma_try_map_all,
    lemma_try_map_ok,
    try_map,
};

verus! {

proof fn lemma_words()
    ensures
        "type"@.len() == 4 && "type"@[0] == 't' && "type"@[1] == 'y',
        "text"@.len() == 4 && "text"@[0] == 't' && "text"@[1] == 'e',
        "name"@.len() == 4 && "name"@[0] == 'n',
        "role"@.len() == 4 && "role"@[0] == 'r',
        "id"@.len() == 2,
        "status"@.len() == 6 && "status"@[0] == 's',
        "output"@.len() == 6 && "output"@[0] == 'o',
        "call_id"@.len() == 7 && "call_id"@[0] == 'c' && "call_id"@[1] == 'a',
        "content"@.len() == 7 && "content"@[0] == 'c' && "content"@[1] == 'o',
        "summary"@.len() == 7 && "summary"@[0] == 's',
        "arguments"@.len() == 9,
        "encrypted_content"@.len() == 17,
        "message"@.len() == 7,
        "function_call"@.len() == 13,
        "function_call_output"@.len() == 20,
        "reasoning"@.len() == 9,
{
    reveal_strlit("type");
    reveal_strlit("text");
    reveal_strlit("name");
    reveal_strlit("role");
    reveal_strlit("id");
    reveal_strlit("status");
    reveal_strlit("output");
    reveal_strlit("call_id");
    reveal_strlit("content");
    reveal_strlit("summary");
    reveal_strlit("arguments");
    reveal_strlit("encrypted_content");
    reveal_strlit("message");
    reveal_strlit("function_call");
    reveal_strlit("function_call_output");
    reveal_strlit("reasoning");
}

/// The item alone, where there is one.
pub open spec fn alone(item: Option<JsonView>) -> Seq<JsonView> {
    match item {
        Some(item) => seq![item],
        None => Seq::empty(),
    }
}

proof fn lemma_filter_map_one(f: spec_fn(JsonView) -> Option<JsonView>, item: JsonView)
    ensures
        filter_map(f, seq![item]) == alone(f(item)),
{
    assert(seq![item].drop_last() =~= Seq::empty());
    assert(filter_map(f, seq![item].drop_last()) =~= Seq::empty());
    assert(filter_map(f, seq![item]) =~= alone(f(item)));
}

/// Everything that a response put out is put in again, in its order: a message, a call
/// and a trace each become one item, and the items of two outputs, one behind the
/// other, are those of the first and then those of the second.
pub proof fn law_output_is_put_in_again(
    first: Seq<JsonView>,
    second: Seq<JsonView>,
    item: JsonView,
)
    ensures
        outputs_as_input(JsonView::Array(first + second)) == outputs_as_input(
            JsonView::Array(first),
        ) + outputs_as_input(JsonView::Array(second)),
        outputs_as_input(JsonView::Array(seq![item])) == alone(output_as_input(item)),
        outputs_as_input(JsonView::Array(Seq::empty())) == Seq::<JsonView>::empty(),
        outputs_as_input(JsonView::Null) == Seq::<JsonView>::empty(),
        (output_as_input(item) is Some) == (text_field(item, "type"@) == Some("message"@)
            || text_field(item, "type"@) == Some("function_call"@) || text_field(item, "type"@)
            == Some("reasoning"@)),
{
    lemma_words();
    lemma_filter_map_append(output_mapper(), first, second);
    lemma_filter_map_one(output_mapper(), item);
}

/// Every item of a conversation is looked at, in its order: the items of two parts of
/// a conversation, one behind the other, are those of the first and then those of the
/// second.
pub proof fn law_conversation_is_put_in_again(
    first: Seq<JsonView>,
    second: Seq<JsonView>,
    item: JsonView,
)
    ensures
        stored_items(first + second) == stored_items(first) + stored_items(second),
        stored_items(seq![item]) == alone(stored_as_input(item)),
        stored_items(Seq::empty()) == Seq::<JsonView>::empty(),
{
    lemma_filter_map_append(stored_mapper(), first, second);
    lemma_filter_map_one(stored_mapper(), item);
}

/// An item whose type says what it is.
pub open spec fn typed_item(item: InputItemView) -> bool {
    match item {
        InputItemView::Message(_) => true,
        InputItemView::FunctionCall(call) => call.kind == "function_call"@,
        InputItemView::FunctionCallOutput(output) => output.kind == "function_call_output"@,
        InputItemView::Reasoning(reasoning) => reasoning.kind == "reasoning"@,
    }
}

proof fn lemma_stored_message(message: MessageView)
    requires
        prompt_line(InputItemView::Message(message)) is Ok,
    ensures
        stored_as_input(item_json(InputItemView::Message(message))) == Some(
            item_json(InputItemView::Message(message)),
        ),
{
    lemma_words();
    let object = message_json(message);
    let value = JsonView::Object(object);
    assert(text_field(value, "role"@) == Some(message.role));
    if let ContentView::Parts(parts) = message.content {
        let values = Seq::new(parts.len(), |i: int| part_json(parts[i]));
        lemma_try_map_ok(part_texter(), parts);
        assert forall|i: int| 0 <= i < values.len() implies stored_part_mapper()(
            #[trigger] values[i],
        ) == Ok::<JsonView, ()>(values[i]) by {
            assert(part_texter()(parts[i]) is Ok);
            lemma_stored_part(parts[i]);
        }
        lemma_try_map_all(stored_part_mapper(), values);
        assert(try_map(stored_part_mapper(), values)->Ok_0 =~= values);
    }
}

proof fn lemma_stored_part(part: PartView)
    requires
        part_texter()(part) is Ok,
    ensures
        stored_part_mapper()(part_json(part)) == Ok::<JsonView, ()>(part_json(part)),
{
    lemma_words();
    assert forall|key: Seq<char>| !part.extra.contains_key(key) by {
        law_no_part_field_is_ignored(part, key);
    }
    assert(part.extra =~= no_fields());
    let value = part_json(part);
    assert(text_field(value, "type"@) == Some(part.kind));
    assert(text_field(value, "text"@) == part.text);
    assert(value->Object_0 =~= typed_text(part.kind, part.text->0)->Object_0);
}

proof fn lemma_stored_call(call: FunctionCallView)
    requires
        call.kind == "function_call"@,
    ensures
        ({
            let item = InputItemView::FunctionCall(call);
            &&& stored_as_input(item_json(item)) is Some
            &&& read_item(stored_as_input(item_json(item))->0) is Ok
            &&& prompt_line(read_item(stored_as_input(item_json(item))->0)->Ok_0) == prompt_line(
                item,
            )
        }),
{
    lemma_words();
    let value = JsonView::Object(call_json(call));
    assert(text_field(value, "role"@) is None);
    assert(text_field(value, "type"@) == Some("function_call"@));
    assert(field(value, "call_id"@) == Some(JsonView::Str(call.call_id)));
    assert(field(value, "name"@) == Some(JsonView::Str(call.name)));
    let arguments = match call.arguments {
        Some(arguments) => arguments,
        None => "{}"@,
    };
    let again = FunctionCallView {
        kind: "function_call"@,
        id: None,
        status: None,
        call_id: call.call_id,
        name: call.name,
        arguments: Some(arguments),
    };
    law_item_reads_back(InputItemView::FunctionCall(again));
    assert(stored_as_input(value)->0->Object_0 =~= call_json(again));
}

proof fn lemma_stored_output(output: FunctionCallOutputView)
    requires
        output.kind == "function_call_output"@,
        output.output != Some(JsonView::Null),
    ensures
        ({
            let item = InputItemView::FunctionCallOutput(output);
            &&& stored_as_input(item_json(item)) is Some
            &&& read_item(stored_as_input(item_json(item))->0) is Ok
            &&& prompt_line(read_item(stored_as_input(item_json(item))->0)->Ok_0) == prompt_line(
                item,
            )
        }),
{
    lemma_words();
    let value = JsonView::Object(output_json(output));
    assert(text_field(value, "role"@) is None);
    assert(text_field(value, "type"@) == Some("function_call_output"@));
    assert(field(value, "call_id"@) == Some(JsonView::Str(output.call_id)));
    let again = FunctionCallOutputView {
        kind: "function_call_output"@,
        id: None,
        status: None,
        call_id: output.call_id,
        output: output.output,
    };
    let stored = stored_as_input(value)->0;
    if output.output is Some {
        law_item_reads_back(InputItemView::FunctionCallOutput(again));
        assert(stored->Object_0 =~= output_json(again));
    } else {
        lemma_output_without_a_value(output.call_id);
        assert(stored->Object_0 =~= output_json(again).insert("output"@, JsonView::Null));
    }
}

/// A `null` output reads as none.
proof fn lemma_output_without_a_value(call_id: Seq<char>)
    ensures
        ({
            let again = FunctionCallOutputView {
                kind: "function_call_output"@,
                id: None,
                status: None,
                call_id,
                output: None,
            };
            read_item(JsonView::Object(output_json(again).insert("output"@, JsonView::Null)))
                == Ok::<InputItemView, Seq<char>>(InputItemView::FunctionCallOutput(again))
        }),
{
    lemma_words();
    let again = FunctionCallOutputView {
        kind: "function_call_output"@,
        id: None,
        status: None,
        call_id,
        output: None,
    };
    let model = crate::responses_input::output_model();
    let object = output_json(again).insert("output"@, JsonView::Null);
    crate::records::lemma_record_refuses(
        crate::responses_input::message_model(),
        object,
        "type"@,
    );
    assert(crate::responses_input::call_model().required[2] == "name"@);
    crate::records::lemma_record_refuses(crate::responses_input::call_model(), object, "name"@);
    assert forall|key: Seq<char>| object.contains_key(key) implies model.fields.contains(key) && (
    model.fault)(key, #[trigger] object[key]) is None by {
        assert(model.fields[0] == "type"@ && model.fields[1] == "id"@ && model.fields[2]
            == "status"@ && model.fields[3] == "call_id"@ && model.fields[4] == "output"@);
    }
    crate::records::lemma_record_of_object(model, object);
    assert(crate::responses_input::output_of(object) =~= again);
}

/// What was put into a conversation says the same when the conversation goes on: the
/// item is found there, read again, and gives the line of the prompt that it gave.
pub proof fn law_conversation_item_says_the_same(item: InputItemView)
    requires
        proper_item(item),
        typed_item(item),
        prompt_line(item) is Ok,
    ensures
        stored_as_input(item_json(item)) is Some,
        read_item(stored_as_input(item_json(item))->0) is Ok,
        prompt_line(read_item(stored_as_input(item_json(item))->0)->Ok_0) == prompt_line(item),
{
    match item {
        InputItemView::Message(message) => {
            lemma_stored_message(message);
            law_item_reads_back(item);
        },
        InputItemView::FunctionCall(call) => lemma_stored_call(call),
        InputItemView::FunctionCallOutput(output) => lemma_stored_output(output),
        InputItemView::Reasoning(reasoning) => {
            lemma_words();
            let value = JsonView::Object(reasoning_json(reasoning));
            assert(text_field(value, "role"@) is None);
            assert(text_field(value, "type"@) == Some("reasoning"@));
            law_item_reads_back(item);
        },
    }
}

/// An input is all its items: a text is itself, and a list is read item by item, in
/// its order, exactly when every item can be read.
pub proof fn law_input_is_all_its_items(items: Seq<JsonView>, text: Seq<char>)
    ensures
        read_input(JsonView::Str(text)) == Ok::<InputView, Seq<char>>(InputView::Text(text)),
        ({
            let readable = forall|i: int| 0 <= i < items.len() ==> read_item(#[trigger] items[i]) is Ok;
            &&& (read_input(JsonView::Array(items)) is Ok) == readable
            &&& (read_input_items(items) is Ok) == readable
        }),
        read_input(JsonView::Array(items)) is Ok ==> read_input(JsonView::Array(items))
            == read_input_items(items),
        read_input_items(items) matches Ok(input) ==> {
            &&& input matches InputView::Messages(read)
            &&& read.len() == items.len()
            &&& forall|i: int|
                0 <= i < items.len() ==> read_item(#[trigger] items[i]) == Ok::<
                    InputItemView,
                    Seq<char>,
                >(read[i])
        },
{
    lemma_try_map_ok(item_reader(), items);
    if try_map(item_reader(), items) is Ok {
        let read = try_map(item_reader(), items)->Ok_0;
        assert forall|i: int| 0 <= i < items.len() implies read_item(#[trigger] items[i]) == Ok::<
            InputItemView,
            Seq<char>,
        >(read[i]) by {
            assert(item_reader()(items[i]) == Ok::<InputItemView, Seq<char>>(read[i]));
        }
    }
    if forall|i: int| 0 <= i < items.len() ==> read_item(#[trigger] items[i]) is Ok {
        assert forall|i: int| 0 <= i < items.len() implies item_reader()(
            #[trigger] items[i],
        ) is Ok by {
            assert(read_item(items[i]) is Ok);
        }
        lemma_try_map_all(item_reader(), items);
    }
}

/// A text that is sent alone is kept as the message of the user that it stands for.
pub proof fn law_text_input_is_kept_as_a_message(text: Seq<char>)
    ensures
        ({
            let kept = items_of(InputView::Text(text));
            &&& kept.len() == 1
            &&& text_field(kept[0], "role"@) == Some("user"@)
            &&& field(kept[0], "content"@) matches Some(JsonView::Array(parts))
            &&& parts.len() == 1
            &&& text_field(parts[0], "type"@) == Some("input_text"@)
            &&& text_field(parts[0], "text"@) == Some(text)
        }),
{
    lemma_words();
}

} // verus!
