//! The `input` of a request.
//!
//! An input is a plain text or a list of items: messages, function calls, results
//! of function calls and reasoning items. A text model has no turns, so the items
//! fold into a system text and a user text. For storage an input becomes a list
//! of JSON items, from which the same input can be read again.

use vstd::prelude::*;

use crate::json::{
    field,
    first_unknown,
    no_fields,
    text_field,
    values_view,
    Json,
    JsonObject,
    JsonView,
};
use crate::json_text::{json_text, json_to_string};
use crate::records::{
    check_optional_text,
    check_text,
    lemma_record_is_sound,
    optional_text,
    optional_value,
    read_record,
    record_fields,
    required_text,
    some_text,
    some_value,
    text_fault,
    the_text,
    unless_null,
    Record,
    RecordModel,
};
use crate::responses_shape::{array_of, one_item, with_some};
use crate::seqs::{filter_map, lemma_filter_map_step, lemma_try_map_step, try_map};
use crate::text::{join, joined, same_text, texts};

verus! {

/// An input: a plain text or a list of items.
#[derive(Debug)]
pub enum ResponseInput {
    Text(String),
    Messages(Vec<InputItem>),
}

/// One item of an input list. The first shape that fits is taken.
#[derive(Debug)]
pub enum InputItem {
    Message(Message),
    FunctionCall(FunctionCallItem),
    FunctionCallOutput(FunctionCallOutputItem),
    Reasoning(ReasoningItem),
}

/// A function call that is sent back as input.
#[derive(Debug)]
pub struct FunctionCallItem {
    pub kind: String,
    pub id: Option<String>,
    pub status: Option<String>,
    pub call_id: String,
    pub name: String,
    pub arguments: Option<String>,
}

/// The result of a function call.
#[derive(Debug)]
pub struct FunctionCallOutputItem {
    pub kind: String,
    pub id: Option<String>,
    pub status: Option<String>,
    pub call_id: String,
    pub output: Option<Json>,
}

/// A reasoning item. Only its plain-text content reaches the prompt.
#[derive(Debug)]
pub struct ReasoningItem {
    pub kind: String,
    pub id: Option<String>,
    pub status: Option<String>,
    pub summary: Option<Json>,
    pub content: Option<Vec<ContentPart>>,
    pub encrypted_content: Option<Json>,
}

/// A message.
#[derive(Debug)]
pub struct Message {
    pub role: String,
    pub content: MessageContent,
}

/// The content of a message.
#[derive(Debug)]
pub enum MessageContent {
    Text(String),
    Parts(Vec<ContentPart>),
}

/// One part of a content. `extra` holds every other field, so none is ignored.
#[derive(Debug)]
pub struct ContentPart {
    pub kind: String,
    pub text: Option<String>,
    pub extra: JsonObject,
}

/// The meaning of a [`ContentPart`].
#[verifier::ext_equal]
pub struct PartView {
    pub kind: Seq<char>,
    pub text: Option<Seq<char>>,
    pub extra: Map<Seq<char>, JsonView>,
}

/// The meaning of a [`MessageContent`].
#[verifier::ext_equal]
pub enum ContentView {
    Text(Seq<char>),
    Parts(Seq<PartView>),
}

/// The meaning of a [`Message`].
#[verifier::ext_equal]
pub struct MessageView {
    pub role: Seq<char>,
    pub content: ContentView,
}

/// The meaning of a [`FunctionCallItem`].
#[verifier::ext_equal]
pub struct FunctionCallView {
    pub kind: Seq<char>,
    pub id: Option<Seq<char>>,
    pub status: Option<Seq<char>>,
    pub call_id: Seq<char>,
    pub name: Seq<char>,
    pub arguments: Option<Seq<char>>,
}

/// The meaning of a [`FunctionCallOutputItem`].
#[verifier::ext_equal]
pub struct FunctionCallOutputView {
    pub kind: Seq<char>,
    pub id: Option<Seq<char>>,
    pub status: Option<Seq<char>>,
    pub call_id: Seq<char>,
    pub output: Option<JsonView>,
}

/// The meaning of a [`ReasoningItem`].
#[verifier::ext_equal]
pub struct ReasoningView {
    pub kind: Seq<char>,
    pub id: Option<Seq<char>>,
    pub status: Option<Seq<char>>,
    pub summary: Option<JsonView>,
    pub content: Option<Seq<PartView>>,
    pub encrypted_content: Option<JsonView>,
}

/// The meaning of an [`InputItem`].
#[verifier::ext_equal]
pub enum InputItemView {
    Message(MessageView),
    FunctionCall(FunctionCallView),
    FunctionCallOutput(FunctionCallOutputView),
    Reasoning(ReasoningView),
}

/// The meaning of a [`ResponseInput`].
#[verifier::ext_equal]
pub enum InputView {
    Text(Seq<char>),
    Messages(Seq<InputItemView>),
}

impl View for ContentPart {
    type V = PartView;

    open spec fn view(&self) -> PartView {
        PartView { kind: self.kind@, text: self.text.deep_view(), extra: self.extra@ }
    }
}

/// The views of parts.
pub open spec fn parts_view(parts: Seq<ContentPart>) -> Seq<PartView> {
    Seq::new(parts.len(), |i: int| parts[i]@)
}

impl View for MessageContent {
    type V = ContentView;

    open spec fn view(&self) -> ContentView {
        match self {
            MessageContent::Text(text) => ContentView::Text(text@),
            MessageContent::Parts(parts) => ContentView::Parts(parts_view(parts@)),
        }
    }
}

impl View for Message {
    type V = MessageView;

    open spec fn view(&self) -> MessageView {
        MessageView { role: self.role@, content: self.content@ }
    }
}

impl View for FunctionCallItem {
    type V = FunctionCallView;

    open spec fn view(&self) -> FunctionCallView {
        FunctionCallView {
            kind: self.kind@,
            id: self.id.deep_view(),
            status: self.status.deep_view(),
            call_id: self.call_id@,
            name: self.name@,
            arguments: self.arguments.deep_view(),
        }
    }
}

impl View for FunctionCallOutputItem {
    type V = FunctionCallOutputView;

    open spec fn view(&self) -> FunctionCallOutputView {
        FunctionCallOutputView {
            kind: self.kind@,
            id: self.id.deep_view(),
            status: self.status.deep_view(),
            call_id: self.call_id@,
            output: self.output.deep_view(),
        }
    }
}

impl View for ReasoningItem {
    type V = ReasoningView;

    open spec fn view(&self) -> ReasoningView {
        ReasoningView {
            kind: self.kind@,
            id: self.id.deep_view(),
            status: self.status.deep_view(),
            summary: self.summary.deep_view(),
            content: match self.content {
                Some(parts) => Some(parts_view(parts@)),
                None => None,
            },
            encrypted_content: self.encrypted_content.deep_view(),
        }
    }
}

impl View for InputItem {
    type V = InputItemView;

    open spec fn view(&self) -> InputItemView {
        match self {
            InputItem::Message(message) => InputItemView::Message(message@),
            InputItem::FunctionCall(call) => InputItemView::FunctionCall(call@),
            InputItem::FunctionCallOutput(output) => InputItemView::FunctionCallOutput(output@),
            InputItem::Reasoning(reasoning) => InputItemView::Reasoning(reasoning@),
        }
    }
}

/// The views of items.
pub open spec fn items_view(items: Seq<InputItem>) -> Seq<InputItemView> {
    Seq::new(items.len(), |i: int| items[i]@)
}

impl View for ResponseInput {
    type V = InputView;

    open spec fn view(&self) -> InputView {
        match self {
            ResponseInput::Text(text) => InputView::Text(text@),
            ResponseInput::Messages(items) => InputView::Messages(items_view(items@)),
        }
    }
}

/// The part that a value is read as: an object with a text `type` and a `text`
/// that is a text or missing.
pub open spec fn read_part(value: JsonView) -> Result<PartView, ()> {
    match value {
        JsonView::Object(object) => if some_text(object, "type"@) is None {
            Err(())
        } else if some_value(object, "text"@) is Some && some_text(object, "text"@) is None {
            Err(())
        } else {
            Ok(
                PartView {
                    kind: the_text(object, "type"@),
                    text: some_text(object, "text"@),
                    extra: object.remove("type"@).remove("text"@),
                },
            )
        },
        _ => Err(()),
    }
}

/// Reads one part.
pub open spec fn part_reader() -> spec_fn(JsonView) -> Result<PartView, ()> {
    |value: JsonView| read_part(value)
}

/// The parts that a value is read as.
pub open spec fn read_parts(value: JsonView) -> Result<Seq<PartView>, ()> {
    match value {
        JsonView::Array(items) => try_map(part_reader(), items),
        _ => Err(()),
    }
}

/// The content that a value is read as: a text, or a list of parts.
pub open spec fn read_content(value: JsonView) -> Result<ContentView, ()> {
    match value {
        JsonView::Str(text) => Ok(ContentView::Text(text)),
        _ => match read_parts(value) {
            Ok(parts) => Ok(ContentView::Parts(parts)),
            Err(_) => Err(()),
        },
    }
}

fn decode_part(value: &Json) -> (read: Result<ContentPart, ()>)
    ensures
        match read {
            Ok(part) => read_part(value@) == Ok::<PartView, ()>(part@),
            Err(_) => read_part(value@) is Err,
        },
{
    let object = match value {
        Json::Object(object) => object,
        _ => {
            return Err(());
        },
    };
    let kind = match optional_text(object, "type") {
        Some(kind) => kind,
        None => {
            return Err(());
        },
    };
    let text = match optional_value(object, "text") {
        None => None,
        Some(Json::Str(text)) => Some(text),
        Some(_) => {
            return Err(());
        },
    };
    let extra = object.clone().without("type").without("text");
    let part = ContentPart { kind, text, extra };
    assert(part@ =~= read_part(value@)->Ok_0);
    Ok(part)
}

fn decode_parts(value: &Json) -> (read: Result<Vec<ContentPart>, ()>)
    ensures
        match read {
            Ok(parts) => read_parts(value@) == Ok::<Seq<PartView>, ()>(parts_view(parts@)),
            Err(_) => read_parts(value@) is Err,
        },
{
    let items = match value {
        Json::Array(items) => items,
        _ => {
            return Err(());
        },
    };
    let ghost views = values_view(items@);
    let ghost f = part_reader();
    proof {
        let list = Json::Array(*items);
        assert(list@->Array_0 =~= views);
        assert(views.take(0) =~= Seq::empty());
    }
    let mut parts: Vec<ContentPart> = Vec::new();
    assert(parts_view(parts@) =~= Seq::empty());
    let size: usize = items.len();
    for i in 0..size
        invariant
            size == items@.len(),
            views == values_view(items@),
            value@ == JsonView::Array(views),
            f == part_reader(),
            try_map(f, views.take(i as int)) == Ok::<Seq<PartView>, ()>(parts_view(parts@)),
    {
        proof {
            lemma_try_map_step(f, views, i as int);
        }
        match decode_part(&items[i]) {
            Ok(part) => {
                let ghost before = parts_view(parts@);
                parts.push(part);
                assert(parts_view(parts@) =~= before.push(part@));
            },
            Err(_) => {
                return Err(());
            },
        }
    }
    assert(views.take(size as int) =~= views);
    Ok(parts)
}

fn decode_content(value: &Json) -> (read: Result<MessageContent, ()>)
    ensures
        match read {
            Ok(content) => read_content(value@) == Ok::<ContentView, ()>(content@),
            Err(_) => read_content(value@) is Err,
        },
{
    if let Json::Str(text) = value {
        return Ok(MessageContent::Text(text.clone()));
    }
    match decode_parts(value) {
        Ok(parts) => Ok(MessageContent::Parts(parts)),
        Err(_) => Err(()),
    }
}

/// The fault of a message field.
pub open spec fn message_fault(key: Seq<char>, value: JsonView) -> Option<Seq<char>> {
    if key == "role"@ {
        text_fault(value)
    } else if read_content(value) is Ok {
        None
    } else {
        Some("data did not match any variant of untagged enum MessageContent"@)
    }
}

/// The record of a message.
pub open spec fn message_model() -> RecordModel {
    RecordModel {
        name: "Message"@,
        fields: seq!["role"@, "content"@],
        listed: "`role` or `content`"@,
        required: seq!["role"@, "content"@],
        closed: true,
        fault: |key: Seq<char>, value: JsonView| message_fault(key, value),
    }
}

impl Record for Message {
    open spec fn model() -> RecordModel {
        message_model()
    }

    fn name() -> (name: &'static str) {
        "Message"
    }

    fn fields() -> (fields: Vec<&'static str>) {
        let fields = vec!["role", "content"];
        assert(fields.deep_view() =~= message_model().fields);
        fields
    }

    fn listed() -> (listed: &'static str) {
        "`role` or `content`"
    }

    fn closed() -> (closed: bool) {
        true
    }

    fn required() -> (required: Vec<&'static str>) {
        let required = vec!["role", "content"];
        assert(required.deep_view() =~= message_model().required);
        required
    }

    fn fault(key: &str, value: &Json) -> (fault: Option<String>) {
        if same_text(key, "role") {
            return check_text(value);
        }
        match decode_content(value) {
            Ok(_) => None,
            Err(_) => Some(
                "data did not match any variant of untagged enum MessageContent".to_owned(),
            ),
        }
    }
}

/// The fault of a function call field.
pub open spec fn call_fault(key: Seq<char>, value: JsonView) -> Option<Seq<char>> {
    if key == "type"@ || key == "call_id"@ || key == "name"@ {
        text_fault(value)
    } else {
        unless_null(value, text_fault(value))
    }
}

/// The record of a function call.
pub open spec fn call_model() -> RecordModel {
    RecordModel {
        name: "FunctionCallItem"@,
        fields: seq!["type"@, "id"@, "status"@, "call_id"@, "name"@, "arguments"@],
        listed: "one of `type`, `id`, `status`, `call_id`, `name`, `arguments`"@,
        required: seq!["type"@, "call_id"@, "name"@],
        closed: true,
        fault: |key: Seq<char>, value: JsonView| call_fault(key, value),
    }
}

impl Record for FunctionCallItem {
    open spec fn model() -> RecordModel {
        call_model()
    }

    fn name() -> (name: &'static str) {
        "FunctionCallItem"
    }

    fn fields() -> (fields: Vec<&'static str>) {
        let fields = vec!["type", "id", "status", "call_id", "name", "arguments"];
        assert(fields.deep_view() =~= call_model().fields);
        fields
    }

    fn listed() -> (listed: &'static str) {
        "one of `type`, `id`, `status`, `call_id`, `name`, `arguments`"
    }

    fn closed() -> (closed: bool) {
        true
    }

    fn required() -> (required: Vec<&'static str>) {
        let required = vec!["type", "call_id", "name"];
        assert(required.deep_view() =~= call_model().required);
        required
    }

    fn fault(key: &str, value: &Json) -> (fault: Option<String>) {
        if same_text(key, "type") || same_text(key, "call_id") || same_text(key, "name") {
            check_text(value)
        } else {
            check_optional_text(value)
        }
    }
}

/// The fault of a field of a function call result.
pub open spec fn output_fault(key: Seq<char>, value: JsonView) -> Option<Seq<char>> {
    if key == "type"@ || key == "call_id"@ {
        text_fault(value)
    } else if key == "output"@ {
        None
    } else {
        unless_null(value, text_fault(value))
    }
}

/// The record of a function call result.
pub open spec fn output_model() -> RecordModel {
    RecordModel {
        name: "FunctionCallOutputItem"@,
        fields: seq!["type"@, "id"@, "status"@, "call_id"@, "output"@],
        listed: "one of `type`, `id`, `status`, `call_id`, `output`"@,
        required: seq!["type"@, "call_id"@],
        closed: true,
        fault: |key: Seq<char>, value: JsonView| output_fault(key, value),
    }
}

impl Record for FunctionCallOutputItem {
    open spec fn model() -> RecordModel {
        output_model()
    }

    fn name() -> (name: &'static str) {
        "FunctionCallOutputItem"
    }

    fn fields() -> (fields: Vec<&'static str>) {
        let fields = vec!["type", "id", "status", "call_id", "output"];
        assert(fields.deep_view() =~= output_model().fields);
        fields
    }

    fn listed() -> (listed: &'static str) {
        "one of `type`, `id`, `status`, `call_id`, `output`"
    }

    fn closed() -> (closed: bool) {
        true
    }

    fn required() -> (required: Vec<&'static str>) {
        let required = vec!["type", "call_id"];
        assert(required.deep_view() =~= output_model().required);
        required
    }

    fn fault(key: &str, value: &Json) -> (fault: Option<String>) {
        if same_text(key, "type") || same_text(key, "call_id") {
            check_text(value)
        } else if same_text(key, "output") {
            None
        } else {
            check_optional_text(value)
        }
    }
}

/// The fault of a field of a reasoning item.
pub open spec fn reasoning_fault(key: Seq<char>, value: JsonView) -> Option<Seq<char>> {
    if key == "type"@ {
        text_fault(value)
    } else if key == "id"@ || key == "status"@ {
        unless_null(value, text_fault(value))
    } else if key == "content"@ {
        if value is Null || read_parts(value) is Ok {
            None
        } else {
            Some("invalid content"@)
        }
    } else {
        None
    }
}

/// The record of a reasoning item.
pub open spec fn reasoning_model() -> RecordModel {
    RecordModel {
        name: "ReasoningItem"@,
        fields: seq!["type"@, "id"@, "status"@, "summary"@, "content"@, "encrypted_content"@],
        listed: "one of `type`, `id`, `status`, `summary`, `content`, `encrypted_content`"@,
        required: seq!["type"@],
        closed: true,
        fault: |key: Seq<char>, value: JsonView| reasoning_fault(key, value),
    }
}

impl Record for ReasoningItem {
    open spec fn model() -> RecordModel {
        reasoning_model()
    }

    fn name() -> (name: &'static str) {
        "ReasoningItem"
    }

    fn fields() -> (fields: Vec<&'static str>) {
        let fields = vec!["type", "id", "status", "summary", "content", "encrypted_content"];
        assert(fields.deep_view() =~= reasoning_model().fields);
        fields
    }

    fn listed() -> (listed: &'static str) {
        "one of `type`, `id`, `status`, `summary`, `content`, `encrypted_content`"
    }

    fn closed() -> (closed: bool) {
        true
    }

    fn required() -> (required: Vec<&'static str>) {
        let required = vec!["type"];
        assert(required.deep_view() =~= reasoning_model().required);
        required
    }

    fn fault(key: &str, value: &Json) -> (fault: Option<String>) {
        if same_text(key, "type") {
            check_text(value)
        } else if same_text(key, "id") || same_text(key, "status") {
            check_optional_text(value)
        } else if same_text(key, "content") {
            if let Json::Null = value {
                return None;
            }
            match decode_parts(value) {
                Ok(_) => None,
                Err(_) => Some("invalid content".to_owned()),
            }
        } else {
            None
        }
    }
}

/// The message of a record.
pub open spec fn message_of(fields: Map<Seq<char>, JsonView>) -> MessageView {
    MessageView {
        role: the_text(fields, "role"@),
        content: read_content(fields["content"@])->Ok_0,
    }
}

/// The function call of a record.
pub open spec fn call_of(fields: Map<Seq<char>, JsonView>) -> FunctionCallView {
    FunctionCallView {
        kind: the_text(fields, "type"@),
        id: some_text(fields, "id"@),
        status: some_text(fields, "status"@),
        call_id: the_text(fields, "call_id"@),
        name: the_text(fields, "name"@),
        arguments: some_text(fields, "arguments"@),
    }
}

/// The function call result of a record.
pub open spec fn output_of(fields: Map<Seq<char>, JsonView>) -> FunctionCallOutputView {
    FunctionCallOutputView {
        kind: the_text(fields, "type"@),
        id: some_text(fields, "id"@),
        status: some_text(fields, "status"@),
        call_id: the_text(fields, "call_id"@),
        output: some_value(fields, "output"@),
    }
}

/// The reasoning item of a record.
pub open spec fn reasoning_of(fields: Map<Seq<char>, JsonView>) -> ReasoningView {
    ReasoningView {
        kind: the_text(fields, "type"@),
        id: some_text(fields, "id"@),
        status: some_text(fields, "status"@),
        summary: some_value(fields, "summary"@),
        content: match some_value(fields, "content"@) {
            Some(content) => Some(read_parts(content)->Ok_0),
            None => None,
        },
        encrypted_content: some_value(fields, "encrypted_content"@),
    }
}

/// The item that a value is read as: the first shape that fits.
pub open spec fn read_item(value: JsonView) -> Result<InputItemView, Seq<char>> {
    if record_fields(message_model(), value) is Ok {
        Ok(InputItemView::Message(message_of(record_fields(message_model(), value)->Ok_0)))
    } else if record_fields(call_model(), value) is Ok {
        Ok(InputItemView::FunctionCall(call_of(record_fields(call_model(), value)->Ok_0)))
    } else if record_fields(output_model(), value) is Ok {
        Ok(InputItemView::FunctionCallOutput(output_of(record_fields(output_model(), value)->Ok_0)))
    } else if record_fields(reasoning_model(), value) is Ok {
        Ok(InputItemView::Reasoning(reasoning_of(record_fields(reasoning_model(), value)->Ok_0)))
    } else {
        Err("data did not match any variant of untagged enum InputItem"@)
    }
}

/// Reads one item.
pub open spec fn item_reader() -> spec_fn(JsonView) -> Result<InputItemView, Seq<char>> {
    |value: JsonView| read_item(value)
}

/// The items that a list is read as.
pub open spec fn read_items(items: Seq<JsonView>) -> Result<Seq<InputItemView>, Seq<char>> {
    try_map(item_reader(), items)
}

/// The input that a value is read as: a text or a list of items.
pub open spec fn read_input(value: JsonView) -> Result<InputView, Seq<char>> {
    match value {
        JsonView::Str(text) => Ok(InputView::Text(text)),
        JsonView::Array(items) => match read_items(items) {
            Ok(items) => Ok(InputView::Messages(items)),
            Err(_) => Err("data did not match any variant of untagged enum ResponseInput"@),
        },
        _ => Err("data did not match any variant of untagged enum ResponseInput"@),
    }
}

fn decode_message(value: &Json) -> (read: Option<Message>)
    ensures
        match read {
            Some(message) => record_fields(message_model(), value@) is Ok && message@ == message_of(
                record_fields(message_model(), value@)->Ok_0,
            ),
            None => record_fields(message_model(), value@) is Err,
        },
{
    match read_record::<Message>(value) {
        Err(_) => None,
        Ok(fields) => {
            proof {
                let model = message_model();
                assert(model.fields[0] == "role"@ && model.fields[1] == "content"@);
                assert(model.required[1] == "content"@);
                lemma_record_is_sound(model, value@);
                reveal_strlit("role");
                reveal_strlit("content");
                assert("role"@.len() != "content"@.len());
                assert((model.fault)("content"@, fields@["content"@]) is None);
            }
            match fields.get("content") {
                Some(content) => match decode_content(content) {
                    Ok(content) => Some(
                        Message { role: required_text(&fields, "role"), content },
                    ),
                    Err(_) => None,
                },
                None => None,
            }
        },
    }
}

fn decode_function_call(value: &Json) -> (read: Option<FunctionCallItem>)
    ensures
        match read {
            Some(call) => record_fields(call_model(), value@) is Ok && call@ == call_of(
                record_fields(call_model(), value@)->Ok_0,
            ),
            None => record_fields(call_model(), value@) is Err,
        },
{
    match read_record::<FunctionCallItem>(value) {
        Err(_) => None,
        Ok(fields) => Some(
            FunctionCallItem {
                kind: required_text(&fields, "type"),
                id: optional_text(&fields, "id"),
                status: optional_text(&fields, "status"),
                call_id: required_text(&fields, "call_id"),
                name: required_text(&fields, "name"),
                arguments: optional_text(&fields, "arguments"),
            },
        ),
    }
}

fn decode_function_call_output(value: &Json) -> (read: Option<FunctionCallOutputItem>)
    ensures
        match read {
            Some(output) => record_fields(output_model(), value@) is Ok && output@ == output_of(
                record_fields(output_model(), value@)->Ok_0,
            ),
            None => record_fields(output_model(), value@) is Err,
        },
{
    match read_record::<FunctionCallOutputItem>(value) {
        Err(_) => None,
        Ok(fields) => Some(
            FunctionCallOutputItem {
                kind: required_text(&fields, "type"),
                id: optional_text(&fields, "id"),
                status: optional_text(&fields, "status"),
                call_id: required_text(&fields, "call_id"),
                output: optional_value(&fields, "output"),
            },
        ),
    }
}

/// In a reasoning record the content is `null` or a list of parts.
proof fn lemma_reasoning_content(value: JsonView)
    requires
        record_fields(reasoning_model(), value) is Ok,
    ensures
        some_value(record_fields(reasoning_model(), value)->Ok_0, "content"@) matches Some(content)
            ==> read_parts(content) is Ok,
{
    let model = reasoning_model();
    let fields = record_fields(model, value)->Ok_0;
    assert(model.fields[0] == model.required[0]);
    lemma_record_is_sound(model, value);
    reveal_strlit("type");
    reveal_strlit("id");
    reveal_strlit("status");
    reveal_strlit("content");
    assert("content"@.len() == 7 && "type"@.len() == 4 && "id"@.len() == 2 && "status"@.len() == 6);
    if fields.contains_key("content"@) {
        assert((model.fault)("content"@, fields["content"@]) is None);
    }
}

fn decode_reasoning(value: &Json) -> (read: Option<ReasoningItem>)
    ensures
        match read {
            Some(reasoning) => record_fields(reasoning_model(), value@) is Ok && reasoning@
                == reasoning_of(record_fields(reasoning_model(), value@)->Ok_0),
            None => record_fields(reasoning_model(), value@) is Err,
        },
{
    match read_record::<ReasoningItem>(value) {
        Err(_) => None,
        Ok(fields) => {
            proof {
                lemma_reasoning_content(value@);
            }
            let content = match optional_value(&fields, "content") {
                Some(content) => match decode_parts(&content) {
                    Ok(parts) => Some(parts),
                    Err(_) => None,
                },
                None => None,
            };
            Some(
                ReasoningItem {
                    kind: required_text(&fields, "type"),
                    id: optional_text(&fields, "id"),
                    status: optional_text(&fields, "status"),
                    summary: optional_value(&fields, "summary"),
                    content,
                    encrypted_content: optional_value(&fields, "encrypted_content"),
                },
            )
        },
    }
}

/// Reads one input item.
pub fn decode_item(value: &Json) -> (read: Result<InputItem, String>)
    ensures
        match read {
            Ok(item) => read_item(value@) == Ok::<InputItemView, Seq<char>>(item@),
            Err(message) => read_item(value@) == Err::<InputItemView, Seq<char>>(message@),
        },
{
    if let Some(message) = decode_message(value) {
        return Ok(InputItem::Message(message));
    }
    if let Some(call) = decode_function_call(value) {
        return Ok(InputItem::FunctionCall(call));
    }
    if let Some(output) = decode_function_call_output(value) {
        return Ok(InputItem::FunctionCallOutput(output));
    }
    if let Some(reasoning) = decode_reasoning(value) {
        return Ok(InputItem::Reasoning(reasoning));
    }
    Err("data did not match any variant of untagged enum InputItem".to_owned())
}

fn decode_items(values: &Vec<Json>) -> (read: Result<Vec<InputItem>, String>)
    ensures
        match read {
            Ok(items) => read_items(values_view(values@)) == Ok::<Seq<InputItemView>, Seq<char>>(
                items_view(items@),
            ),
            Err(message) => read_items(values_view(values@)) == Err::<
                Seq<InputItemView>,
                Seq<char>,
            >(message@),
        },
{
    let ghost views = values_view(values@);
    let ghost f = item_reader();
    assert(views.take(0) =~= Seq::empty());
    let mut items: Vec<InputItem> = Vec::new();
    assert(items_view(items@) =~= Seq::empty());
    let size: usize = values.len();
    for i in 0..size
        invariant
            size == values@.len(),
            views == values_view(values@),
            f == item_reader(),
            try_map(f, views.take(i as int)) == Ok::<Seq<InputItemView>, Seq<char>>(
                items_view(items@),
            ),
    {
        proof {
            lemma_try_map_step(f, views, i as int);
        }
        match decode_item(&values[i]) {
            Ok(item) => {
                let ghost before = items_view(items@);
                items.push(item);
                assert(items_view(items@) =~= before.push(item@));
            },
            Err(message) => {
                return Err(message);
            },
        }
    }
    assert(views.take(size as int) =~= views);
    Ok(items)
}

/// Reads an input.
pub fn decode_input(value: &Json) -> (read: Result<ResponseInput, String>)
    ensures
        match read {
            Ok(input) => read_input(value@) == Ok::<InputView, Seq<char>>(input@),
            Err(message) => read_input(value@) == Err::<InputView, Seq<char>>(message@),
        },
{
    match value {
        Json::Str(text) => Ok(ResponseInput::Text(text.clone())),
        Json::Array(values) => {
            proof {
                let list = Json::Array(*values);
                assert(list@->Array_0 =~= values_view(values@));
            }
            match decode_items(values) {
                Ok(items) => Ok(ResponseInput::Messages(items)),
                Err(_) => Err(
                    "data did not match any variant of untagged enum ResponseInput".to_owned(),
                ),
            }
        },
        _ => Err("data did not match any variant of untagged enum ResponseInput".to_owned()),
    }
}

/// The input that a list of JSON items is read as, or why it is refused.
pub open spec fn read_input_items(items: Seq<JsonView>) -> Result<InputView, Seq<char>> {
    match read_items(items) {
        Ok(items) => Ok(InputView::Messages(items)),
        Err(error) => Err("invalid input item: "@ + error),
    }
}

/// Reads an input from a list of JSON items.
pub fn parse_input_items(items: Vec<Json>) -> (read: Result<ResponseInput, String>)
    ensures
        match read {
            Ok(input) => read_input_items(values_view(items@)) == Ok::<InputView, Seq<char>>(input@),
            Err(message) => read_input_items(values_view(items@)) == Err::<InputView, Seq<char>>(
                message@,
            ),
        },
{
    match decode_items(&items) {
        Ok(items) => Ok(ResponseInput::Messages(items)),
        Err(error) => Err("invalid input item: ".to_owned().concat(error.as_str())),
    }
}

/// The fields with one more text where there is one.
pub open spec fn with_text(
    fields: Map<Seq<char>, JsonView>,
    key: Seq<char>,
    text: Option<Seq<char>>,
) -> Map<Seq<char>, JsonView> {
    match text {
        Some(text) => fields.insert(key, JsonView::Str(text)),
        None => fields,
    }
}

/// The JSON form of a part.
pub open spec fn part_json(part: PartView) -> JsonView {
    JsonView::Object(
        with_text(
            part.extra.insert("type"@, JsonView::Str(part.kind)),
            "text"@,
            part.text,
        ),
    )
}

/// The JSON form of parts.
pub open spec fn parts_json(parts: Seq<PartView>) -> JsonView {
    JsonView::Array(Seq::new(parts.len(), |i: int| part_json(parts[i])))
}

/// The JSON form of a content.
pub open spec fn content_json(content: ContentView) -> JsonView {
    match content {
        ContentView::Text(text) => JsonView::Str(text),
        ContentView::Parts(parts) => parts_json(parts),
    }
}

/// The JSON form of a message.
pub open spec fn message_json(message: MessageView) -> Map<Seq<char>, JsonView> {
    no_fields().insert("role"@, JsonView::Str(message.role)).insert(
        "content"@,
        content_json(message.content),
    )
}

/// The JSON form of a function call.
pub open spec fn call_json(call: FunctionCallView) -> Map<Seq<char>, JsonView> {
    let fields = no_fields().insert("type"@, JsonView::Str(call.kind));
    let fields = with_text(with_text(fields, "id"@, call.id), "status"@, call.status);
    let fields = fields.insert("call_id"@, JsonView::Str(call.call_id)).insert(
        "name"@,
        JsonView::Str(call.name),
    );
    with_text(fields, "arguments"@, call.arguments)
}

/// The JSON form of a function call result.
pub open spec fn output_json(output: FunctionCallOutputView) -> Map<Seq<char>, JsonView> {
    let fields = no_fields().insert("type"@, JsonView::Str(output.kind));
    let fields = with_text(with_text(fields, "id"@, output.id), "status"@, output.status);
    let fields = fields.insert("call_id"@, JsonView::Str(output.call_id));
    with_some(fields, "output"@, output.output)
}

/// The JSON form of a reasoning item.
pub open spec fn reasoning_json(reasoning: ReasoningView) -> Map<Seq<char>, JsonView> {
    let fields = no_fields().insert("type"@, JsonView::Str(reasoning.kind));
    let fields = with_text(with_text(fields, "id"@, reasoning.id), "status"@, reasoning.status);
    let fields = with_some(fields, "summary"@, reasoning.summary);
    let fields = with_some(
        fields,
        "content"@,
        match reasoning.content {
            Some(parts) => Some(parts_json(parts)),
            None => None,
        },
    );
    with_some(fields, "encrypted_content"@, reasoning.encrypted_content)
}

/// The JSON form of an item: its fields, without those it does not have.
pub open spec fn item_json(item: InputItemView) -> JsonView {
    JsonView::Object(
        match item {
            InputItemView::Message(message) => message_json(message),
            InputItemView::FunctionCall(call) => call_json(call),
            InputItemView::FunctionCallOutput(output) => output_json(output),
            InputItemView::Reasoning(reasoning) => reasoning_json(reasoning),
        },
    )
}

/// A content part with a text.
pub open spec fn typed_text(kind: Seq<char>, text: Seq<char>) -> JsonView {
    JsonView::Object(
        no_fields().insert("type"@, JsonView::Str(kind)).insert("text"@, JsonView::Str(text)),
    )
}

/// A message with one content part.
pub open spec fn one_part_message(
    role: Seq<char>,
    kind: Seq<char>,
    text: Seq<char>,
) -> JsonView {
    JsonView::Object(
        no_fields().insert("role"@, JsonView::Str(role)).insert(
            "content"@,
            JsonView::Array(seq![typed_text(kind, text)]),
        ),
    )
}

/// The JSON items of an input. A text is one user message.
pub open spec fn items_of(input: InputView) -> Seq<JsonView> {
    match input {
        InputView::Text(text) => seq![one_part_message("user"@, "input_text"@, text)],
        InputView::Messages(items) => Seq::new(items.len(), |i: int| item_json(items[i])),
    }
}

fn put_text(fields: JsonObject, key: &str, text: &Option<String>) -> (more: JsonObject)
    ensures
        more@ == with_text(fields@, key@, text.deep_view()),
{
    match text {
        Some(text) => fields.with(key, Json::text(text.as_str())),
        None => fields,
    }
}

fn put_value(fields: JsonObject, key: &str, value: &Option<Json>) -> (more: JsonObject)
    ensures
        more@ == with_some(fields@, key@, value.deep_view()),
{
    match value {
        Some(value) => fields.with(key, value.clone()),
        None => fields,
    }
}

fn encode_parts(parts: &Vec<ContentPart>) -> (value: Json)
    ensures
        value@ == parts_json(parts_view(parts@)),
{
    let mut items: Vec<Json> = Vec::new();
    let size: usize = parts.len();
    for i in 0..size
        invariant
            size == parts@.len(),
            items@.len() == i,
            forall|j: int| 0 <= j < i ==> (#[trigger] items@[j])@ == part_json(parts@[j]@),
    {
        let part = &parts[i];
        let fields = part.extra.clone().with("type", Json::text(part.kind.as_str()));
        items.push(Json::Object(put_text(fields, "text", &part.text)));
    }
    let value = array_of(items);
    assert(value@->Array_0 =~= parts_json(parts_view(parts@))->Array_0);
    value
}

/// The JSON form of an item.
pub fn encode_item(item: &InputItem) -> (value: Json)
    ensures
        value@ == item_json(item@),
{
    match item {
        InputItem::Message(message) => {
            let content = match &message.content {
                MessageContent::Text(text) => Json::text(text.as_str()),
                MessageContent::Parts(parts) => encode_parts(parts),
            };
            Json::Object(
                JsonObject::new().with("role", Json::text(message.role.as_str())).with(
                    "content",
                    content,
                ),
            )
        },
        InputItem::FunctionCall(call) => {
            let fields = JsonObject::new().with("type", Json::text(call.kind.as_str()));
            let fields = put_text(put_text(fields, "id", &call.id), "status", &call.status);
            let fields = fields.with("call_id", Json::text(call.call_id.as_str())).with(
                "name",
                Json::text(call.name.as_str()),
            );
            Json::Object(put_text(fields, "arguments", &call.arguments))
        },
        InputItem::FunctionCallOutput(output) => {
            let fields = JsonObject::new().with("type", Json::text(output.kind.as_str()));
            let fields = put_text(put_text(fields, "id", &output.id), "status", &output.status);
            let fields = fields.with("call_id", Json::text(output.call_id.as_str()));
            Json::Object(put_value(fields, "output", &output.output))
        },
        InputItem::Reasoning(reasoning) => {
            let fields = JsonObject::new().with("type", Json::text(reasoning.kind.as_str()));
            let fields = put_text(
                put_text(fields, "id", &reasoning.id),
                "status",
                &reasoning.status,
            );
            let fields = put_value(fields, "summary", &reasoning.summary);
            let fields = match &reasoning.content {
                Some(parts) => fields.with("content", encode_parts(parts)),
                None => fields,
            };
            Json::Object(put_value(fields, "encrypted_content", &reasoning.encrypted_content))
        },
    }
}

fn text_part_of(kind: &str, text: &str) -> (part: Json)
    ensures
        part@ == typed_text(kind@, text@),
{
    Json::Object(JsonObject::new().with("type", Json::text(kind)).with("text", Json::text(text)))
}

/// The JSON items of an input, for storage and listing. A text becomes one user
/// message; an item of a list keeps its shape.
pub fn input_items(input: &ResponseInput) -> (items: Vec<Json>)
    ensures
        values_view(items@) == items_of(input@),
{
    let mut items: Vec<Json> = Vec::new();
    match input {
        ResponseInput::Text(text) => {
            let content = one_item(text_part_of("input_text", text.as_str()));
            items.push(
                Json::Object(
                    JsonObject::new().with("role", Json::text("user")).with("content", content),
                ),
            );
        },
        ResponseInput::Messages(list) => {
            let size: usize = list.len();
            for i in 0..size
                invariant
                    size == list@.len(),
                    items@.len() == i,
                    forall|j: int| 0 <= j < i ==> (#[trigger] items@[j])@ == item_json(list@[j]@),
            {
                items.push(encode_item(&list[i]));
            }
        },
    }
    assert(values_view(items@) =~= items_of(input@));
    items
}

/// The first text that a list of parts has, from a place on.
pub open spec fn first_text(parts: Seq<JsonView>, from: nat) -> Seq<char>
    decreases parts.len() - from,
{
    if from >= parts.len() {
        Seq::empty()
    } else {
        match text_field(parts[from as int], "text"@) {
            Some(text) => text,
            None => first_text(parts, from + 1),
        }
    }
}

/// The text of an output message.
pub open spec fn message_text_of(item: JsonView) -> Seq<char> {
    match field(item, "content"@) {
        Some(JsonView::Array(parts)) => first_text(parts, 0),
        _ => Seq::empty(),
    }
}

/// A field of an object, or `null` where it is missing.
pub open spec fn field_or_null(item: JsonView, key: Seq<char>) -> JsonView {
    match field(item, key) {
        Some(value) => value,
        None => JsonView::Null,
    }
}

/// The input item of an output item. A message becomes a message with its first
/// text, a function call keeps its call fields and a reasoning item stays as it
/// is. Other items have none.
pub open spec fn output_as_input(item: JsonView) -> Option<JsonView> {
    match text_field(item, "type"@) {
        Some(kind) => if kind == "message"@ {
            Some(
                one_part_message(
                    match text_field(item, "role"@) {
                        Some(role) => role,
                        None => "assistant"@,
                    },
                    "output_text"@,
                    message_text_of(item),
                ),
            )
        } else if kind == "function_call"@ {
            Some(
                JsonView::Object(
                    no_fields().insert("type"@, JsonView::Str("function_call"@)).insert(
                        "call_id"@,
                        field_or_null(item, "call_id"@),
                    ).insert("name"@, field_or_null(item, "name"@)).insert(
                        "arguments"@,
                        field_or_null(item, "arguments"@),
                    ),
                ),
            )
        } else if kind == "reasoning"@ {
            Some(item)
        } else {
            None
        },
        None => None,
    }
}

/// Gives the input item of an output item.
pub open spec fn output_mapper() -> spec_fn(JsonView) -> Option<JsonView> {
    |item: JsonView| output_as_input(item)
}

/// The input items of an output array.
pub open spec fn outputs_as_input(output: JsonView) -> Seq<JsonView> {
    match output {
        JsonView::Array(items) => filter_map(output_mapper(), items),
        _ => Seq::empty(),
    }
}

fn find_text(parts: &Vec<Json>) -> (text: String)
    ensures
        text@ == first_text(values_view(parts@), 0),
{
    let ghost views = values_view(parts@);
    let size: usize = parts.len();
    for i in 0..size
        invariant
            size == parts@.len(),
            views == values_view(parts@),
            first_text(views, 0) == first_text(views, i as nat),
    {
        if let Some(text) = parts[i].get_str("text") {
            return text.to_owned();
        }
    }
    String::new()
}

fn value_or_null(item: &Json, key: &str) -> (value: Json)
    ensures
        value@ == field_or_null(item@, key@),
{
    match item.get(key) {
        Some(value) => value.clone(),
        None => Json::Null,
    }
}

fn output_item_as_input(item: &Json) -> (mapped: Option<Json>)
    ensures
        mapped.deep_view() == output_as_input(item@),
{
    let kind = match item.get_str("type") {
        Some(kind) => kind,
        None => {
            return None;
        },
    };
    if same_text(kind, "message") {
        let text = match item.get("content") {
            Some(Json::Array(parts)) => {
                proof {
                    let list = Json::Array(*parts);
                    assert(list@->Array_0 =~= values_view(parts@));
                }
                find_text(parts)
            },
            _ => String::new(),
        };
        let role = match item.get_str("role") {
            Some(role) => role,
            None => "assistant",
        };
        let content = one_item(text_part_of("output_text", text.as_str()));
        Some(
            Json::Object(
                JsonObject::new().with("role", Json::text(role)).with("content", content),
            ),
        )
    } else if same_text(kind, "function_call") {
        Some(
            Json::Object(
                JsonObject::new().with("type", Json::text("function_call")).with(
                    "call_id",
                    value_or_null(item, "call_id"),
                ).with("name", value_or_null(item, "name")).with(
                    "arguments",
                    value_or_null(item, "arguments"),
                ),
            ),
        )
    } else if same_text(kind, "reasoning") {
        Some(item.clone())
    } else {
        None
    }
}

/// The input items of a stored output array, for a request that continues it.
pub fn output_items_as_input(output: &Json) -> (mapped: Vec<Json>)
    ensures
        values_view(mapped@) == outputs_as_input(output@),
{
    let mut mapped: Vec<Json> = Vec::new();
    assert(values_view(mapped@) =~= Seq::empty());
    if let Json::Array(items) = output {
        let ghost views = values_view(items@);
        let ghost f = output_mapper();
        proof {
            let list = Json::Array(*items);
            assert(list@->Array_0 =~= views);
            assert(views.take(0) =~= Seq::empty());
        }
        let size: usize = items.len();
        for i in 0..size
            invariant
                size == items@.len(),
                views == values_view(items@),
                f == output_mapper(),
                values_view(mapped@) == filter_map(f, views.take(i as int)),
        {
            proof {
                lemma_filter_map_step(f, views, i as int);
            }
            if let Some(item) = output_item_as_input(&items[i]) {
                let ghost before = values_view(mapped@);
                let ghost new = item@;
                mapped.push(item);
                assert(values_view(mapped@) =~= before.push(new));
            }
        }
        assert(views.take(size as int) =~= views);
    }
    mapped
}

/// A stored part as input: a text part with its type and its text.
pub open spec fn stored_part(part: JsonView) -> Result<JsonView, ()> {
    match text_field(part, "type"@) {
        Some(kind) => if kind == "input_text"@ || kind == "output_text"@ {
            Ok(
                typed_text(
                    kind,
                    match text_field(part, "text"@) {
                        Some(text) => text,
                        None => Seq::empty(),
                    },
                ),
            )
        } else {
            Err(())
        },
        None => Err(()),
    }
}

/// Gives the input form of a stored part.
pub open spec fn stored_part_mapper() -> spec_fn(JsonView) -> Result<JsonView, ()> {
    |part: JsonView| stored_part(part)
}

/// The content of a stored message as input. Content with another part has none.
pub open spec fn stored_content(content: JsonView) -> Option<JsonView> {
    match content {
        JsonView::Str(text) => Some(content),
        JsonView::Array(parts) => match try_map(stored_part_mapper(), parts) {
            Ok(parts) => Some(JsonView::Array(parts)),
            Err(_) => None,
        },
        _ => None,
    }
}

/// The input item of a stored conversation item. A message keeps its role and its
/// text parts, a function call and its result keep their call fields, and a
/// reasoning item stays as it is. Other items have none.
pub open spec fn stored_as_input(item: JsonView) -> Option<JsonView> {
    match text_field(item, "role"@) {
        Some(role) => match field(item, "content"@) {
            Some(content) => match stored_content(content) {
                Some(content) => Some(
                    JsonView::Object(
                        no_fields().insert("role"@, JsonView::Str(role)).insert(
                            "content"@,
                            content,
                        ),
                    ),
                ),
                None => None,
            },
            None => None,
        },
        None => match text_field(item, "type"@) {
            Some(kind) => if kind == "function_call"@ {
                match (field(item, "call_id"@), field(item, "name"@)) {
                    (Some(call_id), Some(name)) => Some(
                        JsonView::Object(
                            no_fields().insert("type"@, JsonView::Str("function_call"@)).insert(
                                "call_id"@,
                                call_id,
                            ).insert("name"@, name).insert(
                                "arguments"@,
                                match field(item, "arguments"@) {
                                    Some(arguments) => arguments,
                                    None => JsonView::Str("{}"@),
                                },
                            ),
                        ),
                    ),
                    _ => None,
                }
            } else if kind == "function_call_output"@ {
                match field(item, "call_id"@) {
                    Some(call_id) => Some(
                        JsonView::Object(
                            no_fields().insert(
                                "type"@,
                                JsonView::Str("function_call_output"@),
                            ).insert("call_id"@, call_id).insert(
                                "output"@,
                                field_or_null(item, "output"@),
                            ),
                        ),
                    ),
                    None => None,
                }
            } else if kind == "reasoning"@ {
                Some(item)
            } else {
                None
            },
            None => None,
        },
    }
}

/// Gives the input item of a stored item.
pub open spec fn stored_mapper() -> spec_fn(JsonView) -> Option<JsonView> {
    |item: JsonView| stored_as_input(item)
}

/// The input items of stored conversation items.
pub open spec fn stored_items(items: Seq<JsonView>) -> Seq<JsonView> {
    filter_map(stored_mapper(), items)
}

fn normalized_part(part: &Json) -> (normalized: Option<Json>)
    ensures
        match normalized {
            Some(value) => stored_part(part@) == Ok::<JsonView, ()>(value@),
            None => stored_part(part@) is Err,
        },
{
    let kind = match part.get_str("type") {
        Some(kind) => kind,
        None => {
            return None;
        },
    };
    if !same_text(kind, "input_text") && !same_text(kind, "output_text") {
        return None;
    }
    match part.get_str("text") {
        Some(text) => Some(text_part_of(kind, text)),
        None => {
            let empty = String::new();
            Some(text_part_of(kind, empty.as_str()))
        },
    }
}

fn normalized_content(content: &Json) -> (normalized: Option<Json>)
    ensures
        normalized.deep_view() == stored_content(content@),
{
    match content {
        Json::Str(text) => Some(Json::text(text.as_str())),
        Json::Array(parts) => {
            let ghost views = values_view(parts@);
            let ghost f = stored_part_mapper();
            proof {
                let list = Json::Array(*parts);
                assert(list@->Array_0 =~= views);
                assert(views.take(0) =~= Seq::empty());
            }
            let mut normalized: Vec<Json> = Vec::new();
            assert(values_view(normalized@) =~= Seq::empty());
            let size: usize = parts.len();
            for i in 0..size
                invariant
                    size == parts@.len(),
                    views == values_view(parts@),
                    content@ == JsonView::Array(views),
                    f == stored_part_mapper(),
                    try_map(f, views.take(i as int)) == Ok::<Seq<JsonView>, ()>(
                        values_view(normalized@),
                    ),
            {
                proof {
                    lemma_try_map_step(f, views, i as int);
                }
                match normalized_part(&parts[i]) {
                    Some(part) => {
                        let ghost before = values_view(normalized@);
                        let ghost new = part@;
                        normalized.push(part);
                        assert(values_view(normalized@) =~= before.push(new));
                    },
                    None => {
                        return None;
                    },
                }
            }
            assert(views.take(size as int) =~= views);
            Some(array_of(normalized))
        },
        _ => None,
    }
}

fn stored_item_as_input(item: &Json) -> (mapped: Option<Json>)
    ensures
        mapped.deep_view() == stored_as_input(item@),
{
    if let Some(role) = item.get_str("role") {
        return match item.get("content") {
            Some(content) => match normalized_content(content) {
                Some(content) => Some(
                    Json::Object(
                        JsonObject::new().with("role", Json::text(role)).with("content", content),
                    ),
                ),
                None => None,
            },
            None => None,
        };
    }
    let kind = match item.get_str("type") {
        Some(kind) => kind,
        None => {
            return None;
        },
    };
    if same_text(kind, "function_call") {
        match (item.get("call_id"), item.get("name")) {
            (Some(call_id), Some(name)) => {
                let arguments = match item.get("arguments") {
                    Some(arguments) => arguments.clone(),
                    None => Json::text("{}"),
                };
                Some(
                    Json::Object(
                        JsonObject::new().with("type", Json::text("function_call")).with(
                            "call_id",
                            call_id.clone(),
                        ).with("name", name.clone()).with("arguments", arguments),
                    ),
                )
            },
            _ => None,
        }
    } else if same_text(kind, "function_call_output") {
        match item.get("call_id") {
            Some(call_id) => Some(
                Json::Object(
                    JsonObject::new().with("type", Json::text("function_call_output")).with(
                        "call_id",
                        call_id.clone(),
                    ).with("output", value_or_null(item, "output")),
                ),
            ),
            None => None,
        }
    } else if same_text(kind, "reasoning") {
        Some(item.clone())
    } else {
        None
    }
}

/// The input items of stored conversation items.
pub fn stored_items_as_input(items: &Vec<Json>) -> (mapped: Vec<Json>)
    ensures
        values_view(mapped@) == stored_items(values_view(items@)),
{
    let mut mapped: Vec<Json> = Vec::new();
    let ghost views = values_view(items@);
    let ghost f = stored_mapper();
    assert(values_view(mapped@) =~= Seq::empty());
    assert(views.take(0) =~= Seq::empty());
    let size: usize = items.len();
    for i in 0..size
        invariant
            size == items@.len(),
            views == values_view(items@),
            f == stored_mapper(),
            values_view(mapped@) == filter_map(f, views.take(i as int)),
    {
        proof {
            lemma_filter_map_step(f, views, i as int);
        }
        if let Some(item) = stored_item_as_input(&items[i]) {
            let ghost before = values_view(mapped@);
            let ghost new = item@;
            mapped.push(item);
            assert(values_view(mapped@) =~= before.push(new));
        }
    }
    assert(views.take(size as int) =~= views);
    mapped
}

/// The text of a part of a message, or why it is refused.
pub open spec fn part_text(part: PartView) -> Result<Seq<char>, Seq<char>> {
    if part.kind != "input_text"@ && part.kind != "output_text"@ {
        Err("unsupported modality: "@ + part.kind)
    } else {
        match first_unknown(part.extra, Seq::empty()) {
            Some(key) => Err(
                "unsupported modality field `"@ + key + "` on content type "@ + part.kind,
            ),
            None => match part.text {
                Some(text) => Ok(text),
                None => Err("content part is missing text"@),
            },
        }
    }
}

/// Gives the text of a part of a message.
pub open spec fn part_texter() -> spec_fn(PartView) -> Result<Seq<char>, Seq<char>> {
    |part: PartView| part_text(part)
}

/// The text of a part of a reasoning item, where it has one, or why it is refused.
pub open spec fn trace_text(part: PartView) -> Result<Option<Seq<char>>, Seq<char>> {
    if part.kind != "reasoning_text"@ && part.kind != "output_text"@ {
        Err("unsupported reasoning content type: "@ + part.kind)
    } else {
        match first_unknown(part.extra, Seq::empty()) {
            Some(key) => Err(
                "unsupported reasoning content field `"@ + key + "` on content type "@ + part.kind,
            ),
            None => Ok(part.text),
        }
    }
}

/// Gives the text of a part of a reasoning item.
pub open spec fn trace_texter() -> spec_fn(PartView) -> Result<Option<Seq<char>>, Seq<char>> {
    |part: PartView| trace_text(part)
}

/// The text that is there.
pub open spec fn given_text() -> spec_fn(Option<Seq<char>>) -> Option<Seq<char>> {
    |text: Option<Seq<char>>| text
}

/// A role of the system text.
pub open spec fn is_system_role(role: Seq<char>) -> bool {
    role == "system"@ || role == "developer"@
}

/// The text of a message, or why it is refused.
pub open spec fn text_of_message(message: MessageView) -> Result<Seq<char>, Seq<char>> {
    if !is_system_role(message.role) && message.role != "user"@ && message.role != "assistant"@ {
        Err("unsupported message role: "@ + message.role)
    } else {
        match message.content {
            ContentView::Text(text) => Ok(text),
            ContentView::Parts(parts) => match try_map(part_texter(), parts) {
                Ok(texts) => Ok(joined(texts, "\n"@)),
                Err(error) => Err(error),
            },
        }
    }
}

/// The text of a reasoning item, or why it is refused.
pub open spec fn text_of_reasoning(reasoning: ReasoningView) -> Result<Seq<char>, Seq<char>> {
    match reasoning.content {
        None => Ok(Seq::empty()),
        Some(parts) => match try_map(trace_texter(), parts) {
            Ok(texts) => Ok(joined(filter_map(given_text(), texts), "\n"@)),
            Err(error) => Err(error),
        },
    }
}

/// What an item adds to the prompt.
pub enum PromptLine {
    System(Seq<char>),
    User(Seq<char>),
    Nothing,
}

/// What an item adds to the prompt, or why it is refused.
pub open spec fn prompt_line(item: InputItemView) -> Result<PromptLine, Seq<char>> {
    match item {
        InputItemView::Message(message) => match text_of_message(message) {
            Ok(text) => if is_system_role(message.role) {
                Ok(PromptLine::System(text))
            } else {
                Ok(PromptLine::User(text))
            },
            Err(error) => Err(error),
        },
        InputItemView::FunctionCall(call) => Ok(
            PromptLine::User(
                "Tool call `"@ + call.name + "` ("@ + call.call_id + ") with arguments "@
                    + match call.arguments {
                    Some(arguments) => arguments,
                    None => "{}"@,
                },
            ),
        ),
        InputItemView::FunctionCallOutput(output) => Ok(
            PromptLine::User(
                "Tool result for `"@ + output.call_id + "`: "@ + match output.output {
                    Some(JsonView::Str(text)) => text,
                    Some(value) => json_text(value),
                    None => Seq::empty(),
                },
            ),
        ),
        InputItemView::Reasoning(reasoning) => match text_of_reasoning(reasoning) {
            Ok(text) => if text.len() > 0 {
                Ok(PromptLine::User(text))
            } else {
                Ok(PromptLine::Nothing)
            },
            Err(error) => Err(error),
        },
    }
}

/// Gives what an item adds to the prompt.
pub open spec fn prompt_liner() -> spec_fn(InputItemView) -> Result<PromptLine, Seq<char>> {
    |item: InputItemView| prompt_line(item)
}

/// The system text of a line.
pub open spec fn system_line() -> spec_fn(PromptLine) -> Option<Seq<char>> {
    |line: PromptLine|
        match line {
            PromptLine::System(text) => Some(text),
            _ => None,
        }
}

/// The user text of a line.
pub open spec fn user_line() -> spec_fn(PromptLine) -> Option<Seq<char>> {
    |line: PromptLine|
        match line {
            PromptLine::User(text) => Some(text),
            _ => None,
        }
}

/// The instructions as the first system text.
pub open spec fn opening(instructions: Option<Seq<char>>) -> Seq<Seq<char>> {
    match instructions {
        Some(text) => seq![text],
        None => Seq::empty(),
    }
}

/// The system text and the user text of a prompt.
pub struct PromptTexts {
    pub system: Seq<char>,
    pub user: Seq<char>,
}

/// The prompt of instructions and an input, or why the first item that is refused
/// is.
pub open spec fn prompt_of(instructions: Option<Seq<char>>, input: InputView) -> Result<
    PromptTexts,
    Seq<char>,
> {
    match input {
        InputView::Text(text) => Ok(
            PromptTexts { system: joined(opening(instructions), "\n"@), user: text },
        ),
        InputView::Messages(items) => match try_map(prompt_liner(), items) {
            Ok(lines) => Ok(
                PromptTexts {
                    system: joined(
                        opening(instructions) + filter_map(system_line(), lines),
                        "\n"@,
                    ),
                    user: joined(filter_map(user_line(), lines), "\n"@),
                },
            ),
            Err(error) => Err(error),
        },
    }
}

fn push_part_field_error(start: &str, key: &str, kind: &str) -> (message: String)
    ensures
        message@ == start@ + key@ + "` on content type "@ + kind@,
{
    start.to_owned().concat(key).concat("` on content type ").concat(kind)
}

fn text_of_part(part: &ContentPart) -> (read: Result<String, String>)
    ensures
        match read {
            Ok(text) => part_text(part@) == Ok::<Seq<char>, Seq<char>>(text@),
            Err(message) => part_text(part@) == Err::<Seq<char>, Seq<char>>(message@),
        },
{
    let kind = part.kind.as_str();
    if !same_text(kind, "input_text") && !same_text(kind, "output_text") {
        return Err("unsupported modality: ".to_owned().concat(kind));
    }
    let known: Vec<&str> = Vec::new();
    assert(known.deep_view() =~= Seq::empty());
    if let Some(key) = part.extra.unknown_key(&known) {
        return Err(push_part_field_error("unsupported modality field `", key.as_str(), kind));
    }
    match &part.text {
        Some(text) => Ok(text.clone()),
        None => Err("content part is missing text".to_owned()),
    }
}

fn text_of_trace(part: &ContentPart) -> (read: Result<Option<String>, String>)
    ensures
        match read {
            Ok(text) => trace_text(part@) == Ok::<Option<Seq<char>>, Seq<char>>(text.deep_view()),
            Err(message) => trace_text(part@) == Err::<Option<Seq<char>>, Seq<char>>(message@),
        },
{
    let kind = part.kind.as_str();
    if !same_text(kind, "reasoning_text") && !same_text(kind, "output_text") {
        return Err("unsupported reasoning content type: ".to_owned().concat(kind));
    }
    let known: Vec<&str> = Vec::new();
    assert(known.deep_view() =~= Seq::empty());
    if let Some(key) = part.extra.unknown_key(&known) {
        return Err(
            push_part_field_error("unsupported reasoning content field `", key.as_str(), kind),
        );
    }
    match &part.text {
        Some(text) => Ok(Some(text.clone())),
        None => Ok(None),
    }
}

fn message_text(message: &Message) -> (read: Result<String, String>)
    ensures
        match read {
            Ok(text) => text_of_message(message@) == Ok::<Seq<char>, Seq<char>>(text@),
            Err(error) => text_of_message(message@) == Err::<Seq<char>, Seq<char>>(error@),
        },
{
    let role = message.role.as_str();
    if !same_text(role, "system") && !same_text(role, "developer") && !same_text(role, "user")
        && !same_text(role, "assistant") {
        return Err("unsupported message role: ".to_owned().concat(role));
    }
    match &message.content {
        MessageContent::Text(text) => Ok(text.clone()),
        MessageContent::Parts(parts) => {
            let ghost views = parts_view(parts@);
            let ghost f = part_texter();
            let mut found: Vec<String> = Vec::new();
            assert(texts(found@) =~= Seq::empty());
            assert(views.take(0) =~= Seq::empty());
            let size: usize = parts.len();
            for i in 0..size
                invariant
                    size == parts@.len(),
                    views == parts_view(parts@),
                    message@.content == ContentView::Parts(views),
                    is_system_role(message@.role) || message@.role == "user"@ || message@.role
                        == "assistant"@,
                    f == part_texter(),
                    try_map(f, views.take(i as int)) == Ok::<Seq<Seq<char>>, Seq<char>>(
                        texts(found@),
                    ),
            {
                proof {
                    lemma_try_map_step(f, views, i as int);
                }
                match text_of_part(&parts[i]) {
                    Ok(text) => {
                        let ghost before = texts(found@);
                        found.push(text);
                        assert(texts(found@) =~= before.push(text@));
                    },
                    Err(error) => {
                        return Err(error);
                    },
                }
            }
            assert(views.take(size as int) =~= views);
            Ok(join(&found, "\n"))
        },
    }
}

fn reasoning_text(reasoning: &ReasoningItem) -> (read: Result<String, String>)
    ensures
        match read {
            Ok(text) => text_of_reasoning(reasoning@) == Ok::<Seq<char>, Seq<char>>(text@),
            Err(error) => text_of_reasoning(reasoning@) == Err::<Seq<char>, Seq<char>>(error@),
        },
{
    let parts = match &reasoning.content {
        Some(parts) => parts,
        None => {
            return Ok(String::new());
        },
    };
    let ghost views = parts_view(parts@);
    let ghost f = trace_texter();
    let ghost read: Seq<Option<Seq<char>>> = Seq::empty();
    let mut found: Vec<String> = Vec::new();
    assert(texts(found@) =~= Seq::empty());
    assert(views.take(0) =~= Seq::empty());
    let size: usize = parts.len();
    for i in 0..size
        invariant
            size == parts@.len(),
            views == parts_view(parts@),
            reasoning@.content == Some(views),
            f == trace_texter(),
            try_map(f, views.take(i as int)) == Ok::<Seq<Option<Seq<char>>>, Seq<char>>(read),
            texts(found@) == filter_map(given_text(), read),
    {
        proof {
            lemma_try_map_step(f, views, i as int);
        }
        match text_of_trace(&parts[i]) {
            Ok(text) => {
                proof {
                    let next = read.push(text.deep_view());
                    assert(next.drop_last() =~= read);
                    read = next;
                }
                if let Some(text) = text {
                    let ghost before = texts(found@);
                    found.push(text);
                    assert(texts(found@) =~= before.push(text@));
                }
            },
            Err(error) => {
                return Err(error);
            },
        }
    }
    assert(views.take(size as int) =~= views);
    Ok(join(&found, "\n"))
}

/// What one item adds: a system text, a user text, or neither.
enum Line {
    System(String),
    User(String),
    Nothing,
}

spec fn line_view(line: Line) -> PromptLine {
    match line {
        Line::System(text) => PromptLine::System(text@),
        Line::User(text) => PromptLine::User(text@),
        Line::Nothing => PromptLine::Nothing,
    }
}

fn line_of(item: &InputItem) -> (read: Result<Line, String>)
    ensures
        match read {
            Ok(line) => prompt_line(item@) == Ok::<PromptLine, Seq<char>>(line_view(line)),
            Err(error) => prompt_line(item@) == Err::<PromptLine, Seq<char>>(error@),
        },
{
    match item {
        InputItem::Message(message) => match message_text(message) {
            Ok(text) => {
                let role = message.role.as_str();
                if same_text(role, "system") || same_text(role, "developer") {
                    Ok(Line::System(text))
                } else {
                    Ok(Line::User(text))
                }
            },
            Err(error) => Err(error),
        },
        InputItem::FunctionCall(call) => {
            let arguments = match &call.arguments {
                Some(arguments) => arguments.as_str(),
                None => "{}",
            };
            Ok(
                Line::User(
                    "Tool call `".to_owned().concat(call.name.as_str()).concat("` (").concat(
                        call.call_id.as_str(),
                    ).concat(") with arguments ").concat(arguments),
                ),
            )
        },
        InputItem::FunctionCallOutput(output) => {
            let text = match &output.output {
                Some(Json::Str(text)) => text.clone(),
                Some(value) => json_to_string(value),
                None => String::new(),
            };
            Ok(
                Line::User(
                    "Tool result for `".to_owned().concat(output.call_id.as_str()).concat(
                        "`: ",
                    ).concat(text.as_str()),
                ),
            )
        },
        InputItem::Reasoning(reasoning) => match reasoning_text(reasoning) {
            Ok(text) => if text.as_str().is_empty() {
                Ok(Line::Nothing)
            } else {
                Ok(Line::User(text))
            },
            Err(error) => Err(error),
        },
    }
}

/// Maps instructions and an input onto the system text and the user text of a
/// prompt. The texts of the items stand in their order, one to a line.
pub fn map_input(instructions: Option<&str>, input: &ResponseInput) -> (read: Result<
    (String, String),
    String,
>)
    ensures
        match read {
            Ok((system, user)) => prompt_of(instructions.deep_view(), input@) == Ok::<
                PromptTexts,
                Seq<char>,
            >(PromptTexts { system: system@, user: user@ }),
            Err(error) => prompt_of(instructions.deep_view(), input@) == Err::<
                PromptTexts,
                Seq<char>,
            >(error@),
        },
{
    let mut system: Vec<String> = Vec::new();
    if let Some(text) = instructions {
        system.push(text.to_owned());
    }
    let ghost first = opening(instructions.deep_view());
    assert(texts(system@) =~= first);
    match input {
        ResponseInput::Text(text) => Ok((join(&system, "\n"), text.clone())),
        ResponseInput::Messages(items) => {
            let ghost views = items_view(items@);
            let ghost f = prompt_liner();
            let ghost lines: Seq<PromptLine> = Seq::empty();
            let mut user: Vec<String> = Vec::new();
            assert(texts(user@) =~= Seq::empty());
            assert(views.take(0) =~= Seq::empty());
            assert(first + filter_map(system_line(), lines) =~= first);
            let size: usize = items.len();
            for i in 0..size
                invariant
                    size == items@.len(),
                    views == items_view(items@),
                    input@ == InputView::Messages(views),
                    first == opening(instructions.deep_view()),
                    f == prompt_liner(),
                    try_map(f, views.take(i as int)) == Ok::<Seq<PromptLine>, Seq<char>>(lines),
                    texts(system@) == first + filter_map(system_line(), lines),
                    texts(user@) == filter_map(user_line(), lines),
            {
                proof {
                    lemma_try_map_step(f, views, i as int);
                }
                match line_of(&items[i]) {
                    Ok(line) => {
                        proof {
                            let next = lines.push(line_view(line));
                            assert(next.drop_last() =~= lines);
                            lines = next;
                        }
                        let ghost before_system = texts(system@);
                        let ghost before_user = texts(user@);
                        match line {
                            Line::System(text) => {
                                system.push(text);
                                assert(texts(system@) =~= before_system.push(text@));
                                assert(texts(system@) =~= first + filter_map(system_line(), lines));
                            },
                            Line::User(text) => {
                                user.push(text);
                                assert(texts(user@) =~= before_user.push(text@));
                            },
                            Line::Nothing => {},
                        }
                    },
                    Err(error) => {
                        return Err(error);
                    },
                }
            }
            assert(views.take(size as int) =~= views);
            Ok((join(&system, "\n"), join(&user, "\n")))
        },
    }
}

} // verus!
