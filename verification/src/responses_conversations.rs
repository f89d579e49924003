//! Conversations and their items.
//!
//! Each route first decides whether the request goes on, before the store is
//! touched, and then what is written and what the reply is.

use vstd::prelude::*;

use crate::json::{
    clone_values,
    field,
    text_field,
    values_view,
    Json,
    JsonView,
};
use crate::json_text::{json_from_bytes, json_from_slice};
use crate::records::{
    check_list,
    list_fault,
    optional_value,
    read_record,
    record_fields,
    required_list,
    some_value,
    the_list,
    unit_result,
    Record,
    RecordModel,
};
use crate::responses_http::{error_json, failure, ok_json, success, Reply, ReplyView};
use crate::responses_limits::Loaded;
use crate::responses_metadata::{metadata_fault, validate_metadata};
use crate::responses_retrieve::{deleted_body, deletion, item_list, list_body};
use crate::responses_shape::{lemma_after, IdSource};
use crate::responses_store::{conversation_object, ConversationRecord, ConversationView};
use crate::text::{
    decimal,
    decimal_text,
    has_prefix,
    hexadecimal,
    lemma_hexadecimal,
    lemma_hexadecimal_is_injective,
    same_text,
};

verus! {

/// The wording for an unknown conversation.
pub open spec fn no_conversation(id: Seq<char>) -> Seq<char> {
    "No conversation found with id '"@ + id + "'"@
}

/// The wording for an unknown item.
pub open spec fn no_item(id: Seq<char>) -> Seq<char> {
    "No conversation item found with id '"@ + id + "'"@
}

/// The wording for a store that could not be read.
pub open spec fn conversations_unreadable(error: Seq<char>) -> Seq<char> {
    "failed to read the conversation store: "@ + error
}

/// The wording for a conversation that could not be stored.
pub open spec fn conversation_unwritten(error: Seq<char>) -> Seq<char> {
    "failed to store the conversation: "@ + error
}

/// The wording for a conversation without room.
pub open spec fn item_limit(limit: nat) -> Seq<char> {
    "the conversation item limit of "@ + decimal(limit) + " would be exceeded"@
}

/// The reply for an unknown conversation.
pub fn conversation_not_found(id: &str) -> (reply: Reply)
    ensures
        reply@ == failure(404, no_conversation(id@)),
{
    error_json(404, "No conversation found with id '".to_owned().concat(id).concat("'"))
}

fn item_not_found(id: &str) -> (reply: Reply)
    ensures
        reply@ == failure(404, no_item(id@)),
{
    error_json(404, "No conversation item found with id '".to_owned().concat(id).concat("'"))
}

/// The reply for a store that could not be read.
pub fn read_error(error: &str) -> (reply: Reply)
    ensures
        reply@ == failure(500, conversations_unreadable(error@)),
{
    error_json(500, "failed to read the conversation store: ".to_owned().concat(error))
}

/// The reply for a conversation that could not be stored.
pub fn write_error(error: &str) -> (reply: Reply)
    ensures
        reply@ == failure(500, conversation_unwritten(error@)),
{
    error_json(500, "failed to store the conversation: ".to_owned().concat(error))
}

/// The reply for a conversation without room.
pub fn item_limit_error(limit: usize) -> (reply: Reply)
    ensures
        reply@ == failure(400, item_limit(limit as nat)),
{
    error_json(
        400,
        "the conversation item limit of ".to_owned().concat(
            decimal_text(limit as u64).as_str(),
        ).concat(" would be exceeded"),
    )
}

/// A byte of white space.
pub open spec fn is_blank_byte(byte: u8) -> bool {
    byte == 9 || byte == 10 || byte == 12 || byte == 13 || byte == 32
}

/// A body that holds nothing: it stands for the default request.
pub open spec fn is_blank(body: Seq<u8>) -> bool {
    forall|i: int| 0 <= i < body.len() ==> is_blank_byte(#[trigger] body[i])
}

/// True for a body that holds nothing.
pub fn is_blank_body(body: &[u8]) -> (blank: bool)
    ensures
        blank == is_blank(body@),
{
    let size: usize = body.len();
    for i in 0..size
        invariant
            size == body@.len(),
            forall|j: int| 0 <= j < i ==> is_blank_byte(#[trigger] body@[j]),
    {
        let byte: u8 = body[i];
        if !(byte == 9 || byte == 10 || byte == 12 || byte == 13 || byte == 32) {
            assert(!is_blank_byte(body@[i as int]));
            return false;
        }
    }
    true
}

/// The body that creates or updates a conversation.
#[derive(Debug)]
pub struct ConversationBody {
    pub metadata: Option<Json>,
}

/// The fault of a field of a conversation body.
pub open spec fn conversation_body_fault(key: Seq<char>, value: JsonView) -> Option<Seq<char>> {
    metadata_fault(Some(value))
}

/// The record of a conversation body.
pub open spec fn conversation_body_model() -> RecordModel {
    RecordModel {
        name: "ConversationBody"@,
        fields: seq!["metadata"@],
        listed: "`metadata`"@,
        required: Seq::empty(),
        closed: true,
        fault: |key: Seq<char>, value: JsonView| conversation_body_fault(key, value),
    }
}

impl Record for ConversationBody {
    open spec fn model() -> RecordModel {
        conversation_body_model()
    }

    fn name() -> (name: &'static str) {
        "ConversationBody"
    }

    fn fields() -> (fields: Vec<&'static str>) {
        let fields = vec!["metadata"];
        assert(fields.deep_view() =~= conversation_body_model().fields);
        fields
    }

    fn listed() -> (listed: &'static str) {
        "`metadata`"
    }

    fn closed() -> (closed: bool) {
        true
    }

    fn required() -> (required: Vec<&'static str>) {
        let required: Vec<&'static str> = Vec::new();
        assert(required.deep_view() =~= conversation_body_model().required);
        required
    }

    fn fault(key: &str, value: &Json) -> (fault: Option<String>) {
        match validate_metadata(Some(value)) {
            Ok(_) => None,
            Err(message) => Some(message),
        }
    }
}

/// The metadata that the value of a conversation body carries, or its first fault.
pub open spec fn read_conversation_body(value: JsonView) -> Result<Option<JsonView>, Seq<char>> {
    match record_fields(conversation_body_model(), value) {
        Ok(fields) => Ok(some_value(fields, "metadata"@)),
        Err(fault) => Err(fault),
    }
}

/// Reads a conversation body from its JSON value.
pub fn decode_conversation_body(value: &Json) -> (read: Result<ConversationBody, String>)
    ensures
        match read {
            Ok(body) => read_conversation_body(value@) == Ok::<Option<JsonView>, Seq<char>>(
                body.metadata.deep_view(),
            ),
            Err(fault) => read_conversation_body(value@) == Err::<Option<JsonView>, Seq<char>>(
                fault@,
            ),
        },
{
    match read_record::<ConversationBody>(value) {
        Ok(fields) => Ok(ConversationBody { metadata: optional_value(&fields, "metadata") }),
        Err(fault) => Err(fault),
    }
}

/// The body that adds items.
#[derive(Debug)]
pub struct ItemsBody {
    pub items: Vec<Json>,
}

/// The record of a body that adds items.
pub open spec fn items_body_model() -> RecordModel {
    RecordModel {
        name: "ItemsBody"@,
        fields: seq!["items"@],
        listed: "`items`"@,
        required: Seq::empty(),
        closed: true,
        fault: |key: Seq<char>, value: JsonView| list_fault(value),
    }
}

impl Record for ItemsBody {
    open spec fn model() -> RecordModel {
        items_body_model()
    }

    fn name() -> (name: &'static str) {
        "ItemsBody"
    }

    fn fields() -> (fields: Vec<&'static str>) {
        let fields = vec!["items"];
        assert(fields.deep_view() =~= items_body_model().fields);
        fields
    }

    fn listed() -> (listed: &'static str) {
        "`items`"
    }

    fn closed() -> (closed: bool) {
        true
    }

    fn required() -> (required: Vec<&'static str>) {
        let required: Vec<&'static str> = Vec::new();
        assert(required.deep_view() =~= items_body_model().required);
        required
    }

    fn fault(key: &str, value: &Json) -> (fault: Option<String>) {
        check_list(value)
    }
}

/// The items that the value of a body carries, or its first fault.
pub open spec fn read_items_body(value: JsonView) -> Result<Seq<JsonView>, Seq<char>> {
    match record_fields(items_body_model(), value) {
        Ok(fields) => Ok(the_list(fields, "items"@)),
        Err(fault) => Err(fault),
    }
}

/// Reads a body that adds items from its JSON value.
pub fn decode_items_body(value: &Json) -> (read: Result<ItemsBody, String>)
    ensures
        match read {
            Ok(body) => read_items_body(value@) == Ok::<Seq<JsonView>, Seq<char>>(
                values_view(body.items@),
            ),
            Err(fault) => read_items_body(value@) == Err::<Seq<JsonView>, Seq<char>>(fault@),
        },
{
    match read_record::<ItemsBody>(value) {
        Ok(fields) => Ok(ItemsBody { items: required_list(&fields, "items") }),
        Err(fault) => Err(fault),
    }
}

/// The refusal of a body.
pub open spec fn body_refusal<T>(message: Seq<char>) -> Result<T, (u16, Seq<char>)> {
    Err((400, "invalid request body: "@ + message))
}

/// The metadata that a conversation body carries, or its refusal. A body that holds
/// nothing carries none. `direct` is what decoding the bytes as the body in one go
/// came to. It comes first: it fails also on a field that is given twice, and its
/// message says where.
pub open spec fn conversation_metadata(body: Seq<u8>, direct: Result<(), Seq<char>>) -> Result<
    Option<JsonView>,
    (u16, Seq<char>),
> {
    if is_blank(body) {
        Ok(None)
    } else {
        match direct {
            Err(message) => body_refusal(message),
            Ok(_) => match json_from_bytes(body) {
                Err(error) => body_refusal(error),
                Ok(value) => match read_conversation_body(value) {
                    Ok(metadata) => Ok(metadata),
                    Err(fault) => body_refusal(fault),
                },
            },
        }
    }
}

/// The items that a body adds, or its refusal. A body that holds nothing adds none.
/// `direct` is as for [`conversation_metadata`].
pub open spec fn added_items(body: Seq<u8>, direct: Result<(), Seq<char>>) -> Result<
    Seq<JsonView>,
    (u16, Seq<char>),
> {
    if is_blank(body) {
        Ok(Seq::empty())
    } else {
        match direct {
            Err(message) => body_refusal(message),
            Ok(_) => match json_from_bytes(body) {
                Err(error) => body_refusal(error),
                Ok(value) => match read_items_body(value) {
                    Ok(items) => Ok(items),
                    Err(fault) => body_refusal(fault),
                },
            },
        }
    }
}

fn refuse_body(message: &str) -> (refused: (u16, String))
    ensures
        refused.0 == 400,
        refused.1@ == "invalid request body: "@ + message@,
{
    (400, "invalid request body: ".to_owned().concat(message))
}

/// Reads the body that creates or updates a conversation. `direct` is what decoding
/// the bytes as the body in one go came to: where that failed, its message holds.
pub fn parse_conversation_body(body: &[u8], direct: Result<(), String>) -> (read: Result<
    Option<Json>,
    (u16, String),
>)
    ensures
        match read {
            Ok(metadata) => conversation_metadata(body@, unit_result(direct)) == Ok::<
                Option<JsonView>,
                (u16, Seq<char>),
            >(metadata.deep_view()),
            Err((status, message)) => conversation_metadata(body@, unit_result(direct)) == Err::<
                Option<JsonView>,
                (u16, Seq<char>),
            >((status, message@)),
        },
{
    if is_blank_body(body) {
        return Ok(None);
    }
    if let Err(message) = direct {
        return Err(refuse_body(message.as_str()));
    }
    match json_from_slice(body) {
        Err(error) => Err(refuse_body(error.as_str())),
        Ok(value) => match decode_conversation_body(&value) {
            Ok(read) => Ok(read.metadata),
            Err(fault) => Err(refuse_body(fault.as_str())),
        },
    }
}

/// Reads the body that adds items. `direct` is as for [`parse_conversation_body`].
pub fn parse_items_body(body: &[u8], direct: Result<(), String>) -> (read: Result<
    Vec<Json>,
    (u16, String),
>)
    ensures
        match read {
            Ok(items) => added_items(body@, unit_result(direct)) == Ok::<
                Seq<JsonView>,
                (u16, Seq<char>),
            >(values_view(items@)),
            Err((status, message)) => added_items(body@, unit_result(direct)) == Err::<
                Seq<JsonView>,
                (u16, Seq<char>),
            >((status, message@)),
        },
{
    if is_blank_body(body) {
        let none: Vec<Json> = Vec::new();
        assert(values_view(none@) =~= Seq::empty());
        return Ok(none);
    }
    if let Err(message) = direct {
        return Err(refuse_body(message.as_str()));
    }
    match json_from_slice(body) {
        Err(error) => Err(refuse_body(error.as_str())),
        Ok(value) => match decode_items_body(&value) {
            Ok(read) => Ok(read.items),
            Err(fault) => Err(refuse_body(fault.as_str())),
        },
    }
}

/// What a store read of a conversation gave.
pub open spec fn loaded_view(loaded: Result<Loaded<ConversationRecord>, String>) -> Result<
    Option<ConversationView>,
    Seq<char>,
> {
    match loaded {
        Ok(Loaded::Live(record)) => Ok(Some(record@)),
        Ok(_) => Ok(None),
        Err(error) => Err(error@),
    }
}

/// The reply where there is no conversation to go on with. An expired one counts
/// as missing.
pub open spec fn missing_reply(
    id: Seq<char>,
    loaded: Result<Option<ConversationView>, Seq<char>>,
) -> ReplyView {
    match loaded {
        Err(error) => failure(500, conversations_unreadable(error)),
        Ok(_) => failure(404, no_conversation(id)),
    }
}

/// The conversation that was loaded, or the reply where there is none.
pub fn require_conversation(
    id: &str,
    loaded: Result<Loaded<ConversationRecord>, String>,
) -> (required: Result<ConversationRecord, Reply>)
    ensures
        match required {
            Ok(record) => loaded_view(loaded) == Ok::<Option<ConversationView>, Seq<char>>(
                Some(record@),
            ),
            Err(reply) => !(loaded_view(loaded) is Ok && loaded_view(loaded)->Ok_0 is Some)
                && reply@ == missing_reply(id@, loaded_view(loaded)),
        },
{
    match loaded {
        Ok(Loaded::Live(record)) => Ok(record),
        Ok(_) => Err(conversation_not_found(id)),
        Err(error) => Err(read_error(error.as_str())),
    }
}

/// The metadata of a conversation request, `null` where it has none.
pub open spec fn metadata_or_null(metadata: Option<JsonView>) -> JsonView {
    match metadata {
        Some(metadata) => metadata,
        None => JsonView::Null,
    }
}

/// A conversation that was just opened: it holds nothing yet.
pub open spec fn opened_conversation(
    id: Seq<char>,
    now: u64,
    metadata: Option<JsonView>,
) -> ConversationView {
    ConversationView {
        id,
        created_at: now,
        metadata: metadata_or_null(metadata),
        items: Seq::empty(),
    }
}

/// The conversation with other metadata.
pub open spec fn with_metadata(
    before: ConversationView,
    metadata: Option<JsonView>,
) -> ConversationView {
    ConversationView { metadata: metadata_or_null(metadata), ..before }
}

/// The conversation with more items behind its own.
pub open spec fn with_more(before: ConversationView, items: Seq<JsonView>) -> ConversationView {
    ConversationView { items: before.items + items, ..before }
}

/// The conversation without the items of an identifier.
pub open spec fn with_fewer(before: ConversationView, id: Seq<char>) -> ConversationView {
    ConversationView { items: without_id(before.items, id), ..before }
}

/// The reply to a request for one item.
pub open spec fn item_reply(items: Seq<JsonView>, id: Seq<char>) -> ReplyView {
    match item_with_id(items, id, 0) {
        Some(item) => success(item),
        None => failure(404, no_item(id)),
    }
}

/// The record of a new conversation, to be stored. It has no items.
pub fn create_conversation(ids: &mut IdSource, now: u64, metadata: Option<Json>) -> (record:
    ConversationRecord)
    ensures
        record@ == (ConversationView {
            id: old(ids).id("conv_"@, 0),
            created_at: now,
            metadata: metadata_or_null(metadata.deep_view()),
            items: Seq::empty(),
        }),
        record@ == opened_conversation(old(ids).id("conv_"@, 0), now, metadata.deep_view()),
        *final(ids) == old(ids).after(1),
{
    let metadata = match metadata {
        Some(metadata) => metadata,
        None => Json::Null,
    };
    let record = ConversationRecord {
        id: ids.new_id("conv_"),
        created_at: now,
        metadata,
        items: Vec::new(),
    };
    assert(record@.items =~= Seq::empty());
    record
}

/// The reply to a stored conversation: its object, or the failed write.
pub fn conversation_stored(record: &ConversationRecord, written: Result<(), String>) -> (reply:
    Reply)
    ensures
        reply@ == match written {
            Ok(_) => success(conversation_object(record@)),
            Err(error) => failure(500, conversation_unwritten(error@)),
        },
{
    match written {
        Ok(_) => ok_json(record.response()),
        Err(error) => write_error(error.as_str()),
    }
}

/// The reply to the retrieval of a conversation.
pub fn get_conversation(id: &str, loaded: Result<Loaded<ConversationRecord>, String>) -> (reply:
    Reply)
    ensures
        reply@ == match loaded_view(loaded) {
            Ok(Some(record)) => success(conversation_object(record)),
            _ => missing_reply(id@, loaded_view(loaded)),
        },
{
    match require_conversation(id, loaded) {
        Ok(record) => ok_json(record.response()),
        Err(reply) => reply,
    }
}

/// The conversation with its metadata replaced, to be stored, or the reply where
/// there is none.
pub fn update_conversation(
    id: &str,
    metadata: Option<Json>,
    loaded: Result<Loaded<ConversationRecord>, String>,
) -> (updated: Result<ConversationRecord, Reply>)
    ensures
        match updated {
            Ok(record) => loaded_view(loaded) is Ok && loaded_view(loaded)->Ok_0 is Some && record@
                == (ConversationView {
                metadata: metadata_or_null(metadata.deep_view()),
                ..loaded_view(loaded)->Ok_0->0
            }),
            Err(reply) => !(loaded_view(loaded) is Ok && loaded_view(loaded)->Ok_0 is Some)
                && reply@ == missing_reply(id@, loaded_view(loaded)),
        },
        updated matches Ok(record) ==> record@ == with_metadata(
            loaded_view(loaded)->Ok_0->0,
            metadata.deep_view(),
        ),
{
    match require_conversation(id, loaded) {
        Ok(record) => {
            let metadata = match metadata {
                Some(metadata) => metadata,
                None => Json::Null,
            };
            Ok(
                ConversationRecord {
                    id: record.id,
                    created_at: record.created_at,
                    metadata,
                    items: record.items,
                },
            )
        },
        Err(reply) => Err(reply),
    }
}

/// The reply to the deletion of a conversation that was there when it was read.
pub fn delete_conversation(id: &str, deleted: Result<bool, String>) -> (reply: Reply)
    ensures
        reply@ == match deleted {
            Ok(true) => success(deletion(id@, "conversation.deleted"@)),
            Ok(false) => failure(404, no_conversation(id@)),
            Err(error) => failure(500, conversation_unwritten(error@)),
        },
{
    match deleted {
        Ok(found) => if found {
            ok_json(deleted_body(id, "conversation.deleted"))
        } else {
            conversation_not_found(id)
        },
        Err(error) => write_error(error.as_str()),
    }
}

/// The prefix of the identifier that an item gets.
pub open spec fn item_prefix(item: JsonView) -> Seq<char> {
    if field(item, "role"@) is Some {
        "msg_"@
    } else if text_field(item, "type"@) == Some("function_call"@) {
        "fc_"@
    } else if text_field(item, "type"@) == Some("function_call_output"@) {
        "fco_"@
    } else {
        "msg_"@
    }
}

/// An item gets an identifier: it is an object without one.
pub open spec fn needs_id(item: JsonView) -> bool {
    text_field(item, "id"@) is None && item is Object
}

/// The item with an identifier. One that it has is kept.
pub open spec fn with_id(ids: IdSource, item: JsonView) -> JsonView {
    if needs_id(item) {
        JsonView::Object(
            item->Object_0.insert("id"@, JsonView::Str(ids.id(item_prefix(item), 0))),
        )
    } else {
        item
    }
}

fn assign_item_id(ids: &mut IdSource, item: Json) -> (named: Json)
    ensures
        named@ == with_id(*old(ids), item@),
        *final(ids) == old(ids).after(
            if needs_id(item@) {
                1
            } else {
                0
            },
        ),
{
    proof {
        lemma_after(*ids, 0, 0);
    }
    if item.get_str("id").is_some() {
        return item;
    }
    let prefix = if item.get("role").is_some() {
        "msg_"
    } else {
        match item.get_str("type") {
            Some(kind) => if same_text(kind, "function_call") {
                "fc_"
            } else if same_text(kind, "function_call_output") {
                "fco_"
            } else {
                "msg_"
            },
            None => "msg_",
        }
    };
    match item {
        Json::Object(fields) => {
            let id = ids.new_id(prefix);
            Json::Object(fields.with("id", Json::Str(id)))
        },
        other => other,
    }
}

/// How many identifiers the items take.
pub open spec fn ids_taken(items: Seq<JsonView>) -> nat
    decreases items.len(),
{
    if items.len() == 0 {
        0
    } else {
        ids_taken(items.drop_last()) + if needs_id(items.last()) {
            1nat
        } else {
            0nat
        }
    }
}

/// The items with their identifiers.
pub open spec fn named_items(ids: IdSource, items: Seq<JsonView>) -> Seq<JsonView> {
    Seq::new(
        items.len(),
        |i: int| with_id(ids.after(ids_taken(items.take(i))), items[i]),
    )
}

/// The items fit into the conversation. The limit zero is none.
pub open spec fn has_room(held: nat, more: nat, limit: nat) -> bool {
    limit == 0 || held + more <= limit
}

/// True when so many more items fit.
pub fn fits_limit(held: usize, more: usize, limit: usize) -> (fits: bool)
    ensures
        fits == has_room(held as nat, more as nat, limit as nat),
{
    limit == 0 || (more <= limit && held <= limit - more)
}

/// Refuses a request without items, before the store is read.
pub fn refuse_no_items(items: &Vec<Json>) -> (refusal: Option<Reply>)
    ensures
        match refusal {
            Some(reply) => items@.len() == 0 && reply@ == failure(
                400,
                "`items` must contain at least one item"@,
            ),
            None => items@.len() > 0,
        },
{
    if items.len() == 0 {
        Some(error_json(400, "`items` must contain at least one item".to_owned()))
    } else {
        None
    }
}

fn assign_ids(ids: &mut IdSource, items: Vec<Json>) -> (named: Vec<Json>)
    ensures
        values_view(named@) == named_items(*old(ids), values_view(items@)),
        *final(ids) == old(ids).after(ids_taken(values_view(items@))),
{
    let ghost start = *ids;
    let ghost views = values_view(items@);
    let mut named: Vec<Json> = Vec::new();
    proof {
        lemma_after(start, 0, 0);
        assert(views.take(0) =~= Seq::empty());
    }
    let size: usize = items.len();
    for i in 0..size
        invariant
            size == items@.len(),
            views == values_view(items@),
            *ids == start.after(ids_taken(views.take(i as int))),
            named@.len() == i,
            forall|j: int| 0 <= j < i ==> (#[trigger] named@[j])@ == named_items(start, views)[j],
    {
        proof {
            let next = views.take(i as int + 1);
            assert(next.drop_last() =~= views.take(i as int));
            assert(next.last() == views[i as int]);
            lemma_after(start, ids_taken(views.take(i as int)), 1);
            lemma_after(start, ids_taken(views.take(i as int)), 0);
        }
        let item = assign_item_id(ids, items[i].clone());
        named.push(item);
    }
    assert(views.take(size as int) =~= views);
    assert(values_view(named@) =~= named_items(start, views));
    named
}

/// Appends copies of the items.
pub fn extend_items(items: &mut Vec<Json>, more: &Vec<Json>)
    ensures
        values_view(final(items)@) == values_view(old(items)@) + values_view(more@),
{
    let ghost before = values_view(items@);
    let ghost added = values_view(more@);
    let mut copies = clone_values(more);
    let ghost copied = values_view(copies@);
    items.append(&mut copies);
    assert(values_view(items@) =~= before + added);
}

/// The conversation with the items added, to be stored, and the items with their
/// identifiers, or the reply where they cannot be added.
pub fn add_items(
    ids: &mut IdSource,
    id: &str,
    items: Vec<Json>,
    loaded: Result<Loaded<ConversationRecord>, String>,
    limit: usize,
) -> (added: Result<(ConversationRecord, Vec<Json>), Reply>)
    ensures
        ({
            let views = values_view(items@);
            match loaded_view(loaded) {
                Ok(Some(before)) => if has_room(before.items.len(), views.len(), limit as nat) {
                    &&& added matches Ok((record, created))
                    &&& values_view(created@) == named_items(*old(ids), views)
                    &&& record@ == (ConversationView {
                        items: before.items + named_items(*old(ids), views),
                        ..before
                    })
                    &&& *final(ids) == old(ids).after(ids_taken(views))
                } else {
                    &&& added matches Err(reply)
                    &&& reply@ == failure(400, item_limit(limit as nat))
                    &&& *final(ids) == *old(ids)
                },
                _ => {
                    &&& added matches Err(reply)
                    &&& reply@ == missing_reply(id@, loaded_view(loaded))
                    &&& *final(ids) == *old(ids)
                },
            }
        }),
        added matches Ok((record, _)) ==> record@ == with_more(
            loaded_view(loaded)->Ok_0->0,
            named_items(*old(ids), values_view(items@)),
        ),
{
    let mut record = match require_conversation(id, loaded) {
        Ok(record) => record,
        Err(reply) => {
            return Err(reply);
        },
    };
    if !fits_limit(record.items.len(), items.len(), limit) {
        return Err(item_limit_error(limit));
    }
    let created = assign_ids(ids, items);
    extend_items(&mut record.items, &created);
    Ok((record, created))
}

/// The reply to items that were added: their list, or the failed write.
pub fn items_added(created: Vec<Json>, written: Result<(), String>) -> (reply: Reply)
    ensures
        reply@ == match written {
            Ok(_) => success(item_list(values_view(created@))),
            Err(error) => failure(500, conversation_unwritten(error@)),
        },
{
    match written {
        Ok(_) => ok_json(list_body(created)),
        Err(error) => write_error(error.as_str()),
    }
}

/// The reply to the listing of the items of a conversation.
pub fn list_items(id: &str, loaded: Result<Loaded<ConversationRecord>, String>) -> (reply: Reply)
    ensures
        reply@ == match loaded_view(loaded) {
            Ok(Some(record)) => success(item_list(record.items)),
            _ => missing_reply(id@, loaded_view(loaded)),
        },
{
    match require_conversation(id, loaded) {
        Ok(record) => ok_json(list_body(record.items)),
        Err(reply) => reply,
    }
}

/// The item has the identifier.
pub open spec fn has_id(item: JsonView, id: Seq<char>) -> bool {
    text_field(item, "id"@) == Some(id)
}

/// The first item with the identifier, from a place on.
pub open spec fn item_with_id(items: Seq<JsonView>, id: Seq<char>, from: nat) -> Option<JsonView>
    decreases items.len() - from,
{
    if from >= items.len() {
        None
    } else if has_id(items[from as int], id) {
        Some(items[from as int])
    } else {
        item_with_id(items, id, from + 1)
    }
}

fn carries_id(item: &Json, id: &str) -> (yes: bool)
    ensures
        yes == has_id(item@, id@),
{
    match item.get_str("id") {
        Some(found) => same_text(found, id),
        None => false,
    }
}

fn find_item<'a>(items: &'a Vec<Json>, item_id: &str) -> (item: Option<&'a Json>)
    ensures
        item.deep_view() == item_with_id(values_view(items@), item_id@, 0),
{
    let ghost views = values_view(items@);
    let size: usize = items.len();
    for i in 0..size
        invariant
            size == items@.len(),
            views == values_view(items@),
            item_with_id(views, item_id@, 0) == item_with_id(views, item_id@, i as nat),
    {
        if carries_id(&items[i], item_id) {
            return Some(&items[i]);
        }
    }
    None
}

/// The reply to the retrieval of an item.
pub fn get_item(
    id: &str,
    item_id: &str,
    loaded: Result<Loaded<ConversationRecord>, String>,
) -> (reply: Reply)
    ensures
        reply@ == match loaded_view(loaded) {
            Ok(Some(record)) => match item_with_id(record.items, item_id@, 0) {
                Some(item) => success(item),
                None => failure(404, no_item(item_id@)),
            },
            _ => missing_reply(id@, loaded_view(loaded)),
        },
        loaded_view(loaded) matches Ok(Some(record)) ==> reply@ == item_reply(
            record.items,
            item_id@,
        ),
{
    match require_conversation(id, loaded) {
        Ok(record) => match find_item(&record.items, item_id) {
            Some(item) => ok_json(item.clone()),
            None => item_not_found(item_id),
        },
        Err(reply) => reply,
    }
}

/// The items that do not have the identifier.
pub open spec fn without_id(items: Seq<JsonView>, id: Seq<char>) -> Seq<JsonView> {
    items.filter(|item: JsonView| !has_id(item, id))
}

fn retain_others(items: &Vec<Json>, item_id: &str) -> (others: Vec<Json>)
    ensures
        values_view(others@) == without_id(values_view(items@), item_id@),
        others@.len() <= items@.len(),
{
    let ghost views = values_view(items@);
    let ghost keep = |item: JsonView| !has_id(item, item_id@);
    let mut others: Vec<Json> = Vec::new();
    proof {
        reveal(Seq::filter);
        assert(views.take(0) =~= Seq::empty());
        assert(values_view(others@) =~= views.take(0).filter(keep));
    }
    let size: usize = items.len();
    for i in 0..size
        invariant
            size == items@.len(),
            views == values_view(items@),
            keep == (|item: JsonView| !has_id(item, item_id@)),
            values_view(others@) == views.take(i as int).filter(keep),
            others@.len() <= i,
    {
        proof {
            reveal(Seq::filter);
            let next = views.take(i as int + 1);
            assert(next.drop_last() =~= views.take(i as int));
            assert(next.last() == items@[i as int]@);
        }
        if !carries_id(&items[i], item_id) {
            let ghost before = values_view(others@);
            others.push(items[i].clone());
            assert(values_view(others@) =~= before.push(views[i as int]));
        }
    }
    assert(views.take(size as int) =~= views);
    others
}

/// The conversation without an item, to be stored, or the reply where there is no
/// such conversation or item.
pub fn delete_item(
    id: &str,
    item_id: &str,
    loaded: Result<Loaded<ConversationRecord>, String>,
) -> (removed: Result<ConversationRecord, Reply>)
    ensures
        match loaded_view(loaded) {
            Ok(Some(before)) => if without_id(before.items, item_id@).len() == before.items.len() {
                &&& removed matches Err(reply)
                &&& reply@ == failure(404, no_item(item_id@))
            } else {
                &&& removed matches Ok(record)
                &&& record@ == (ConversationView {
                    items: without_id(before.items, item_id@),
                    ..before
                })
            },
            _ => {
                &&& removed matches Err(reply)
                &&& reply@ == missing_reply(id@, loaded_view(loaded))
            },
        },
        removed matches Ok(record) ==> record@ == with_fewer(
            loaded_view(loaded)->Ok_0->0,
            item_id@,
        ),
{
    let record = match require_conversation(id, loaded) {
        Ok(record) => record,
        Err(reply) => {
            return Err(reply);
        },
    };
    let others = retain_others(&record.items, item_id);
    assert(values_view(others@).len() == others@.len());
    if others.len() == record.items.len() {
        return Err(item_not_found(item_id));
    }
    Ok(
        ConversationRecord {
            id: record.id,
            created_at: record.created_at,
            metadata: record.metadata,
            items: others,
        },
    )
}

/// The reply to the deletion of an item: its confirmation, or the failed write.
pub fn item_deleted(item_id: &str, written: Result<(), String>) -> (reply: Reply)
    ensures
        reply@ == match written {
            Ok(_) => success(deletion(item_id@, "conversation.item.deleted"@)),
            Err(error) => failure(500, conversation_unwritten(error@)),
        },
{
    match written {
        Ok(_) => ok_json(deleted_body(item_id, "conversation.item.deleted")),
        Err(error) => write_error(error.as_str()),
    }
}

/// Some item from a place on has the identifier.
pub open spec fn holds_id(items: Seq<JsonView>, id: Seq<char>, from: nat) -> bool {
    exists|i: int| from <= i < items.len() && has_id(#[trigger] items[i], id)
}

proof fn lemma_without_id(items: Seq<JsonView>, id: Seq<char>)
    ensures
        without_id(items, id).len() <= items.len(),
        !holds_id(without_id(items, id), id, 0),
        holds_id(items, id, 0) == (without_id(items, id).len() < items.len()),
    decreases items.len(),
{
    reveal(Seq::filter);
    if items.len() > 0 {
        let front = items.drop_last();
        lemma_without_id(front, id);
        assert(holds_id(items, id, 0) == (holds_id(front, id, 0) || has_id(items.last(), id))) by {
            if holds_id(front, id, 0) {
                let i = choose|i: int| 0 <= i < front.len() && has_id(#[trigger] front[i], id);
                assert(has_id(items[i], id));
            }
            if holds_id(items, id, 0) {
                let i = choose|i: int| 0 <= i < items.len() && has_id(#[trigger] items[i], id);
                if i < front.len() {
                    assert(has_id(front[i], id));
                }
            }
        }
        let others = without_id(items, id);
        assert forall|i: int| 0 <= i < others.len() implies !has_id(#[trigger] others[i], id) by {
            if i < without_id(front, id).len() {
                assert(others[i] == without_id(front, id)[i]);
            }
        }
    }
}

proof fn lemma_found(items: Seq<JsonView>, id: Seq<char>, from: nat)
    ensures
        (item_with_id(items, id, from) is Some) == holds_id(items, id, from),
    decreases items.len() - from,
{
    if from < items.len() {
        lemma_found(items, id, from + 1);
        if holds_id(items, id, from) && !has_id(items[from as int], id) {
            let i = choose|i: int| from <= i < items.len() && has_id(#[trigger] items[i], id);
            assert(from + 1 <= i);
        }
    }
}

/// An item can be deleted exactly when it can be found.
pub proof fn law_found_items_can_be_deleted(items: Seq<JsonView>, id: Seq<char>)
    ensures
        (item_with_id(items, id, 0) is Some) == (without_id(items, id).len() != items.len()),
{
    lemma_without_id(items, id);
    lemma_found(items, id, 0);
}

/// An item that was deleted cannot be found, and every other item stays.
pub proof fn law_deleted_item_is_gone(items: Seq<JsonView>, id: Seq<char>, other: JsonView)
    ensures
        item_with_id(without_id(items, id), id, 0) is None,
        items.contains(other) && !has_id(other, id) ==> without_id(items, id).contains(other),
{
    lemma_without_id(items, id);
    lemma_found(without_id(items, id), id, 0);
    let keep = |item: JsonView| !has_id(item, id);
    broadcast use vstd::seq_lib::group_filter_ensures;

    if items.contains(other) && !has_id(other, id) {
        let i = items.index_of(other);
        assert(keep(items[i]));
        assert(items.filter(keep).contains(items[i]));
    }
}

/// Adding items keeps the ones that were there, in their order, and puts the new ones
/// behind them, in theirs. Every new object has an identifier then: its own, where it
/// had one. The other fields of a new item stay.
pub proof fn law_added_items_have_identifiers(
    ids: IdSource,
    held: Seq<JsonView>,
    items: Seq<JsonView>,
    place: int,
    key: Seq<char>,
)
    requires
        0 <= place < items.len(),
        items[place] is Object,
    ensures
        (held + named_items(ids, items)).take(held.len() as int) == held,
        (held + named_items(ids, items)).len() == held.len() + items.len(),
        ({
            let added = (held + named_items(ids, items))[held.len() + place];
            &&& text_field(added, "id"@) is Some
            &&& text_field(items[place], "id"@) matches Some(id) ==> has_id(added, id)
            &&& key != "id"@ ==> field(added, key) == field(items[place], key)
        }),
{
    assert((held + named_items(ids, items)).take(held.len() as int) =~= held);
}

proof fn lemma_prefixes()
    ensures
        "msg_"@.len() == 4 && "msg_"@[0] == 'm',
        "fc_"@.len() == 3 && "fc_"@[0] == 'f' && "fc_"@[2] == '_',
        "fco_"@.len() == 4 && "fco_"@[0] == 'f' && "fco_"@[2] == 'o',
{
    reveal_strlit("msg_");
    reveal_strlit("fc_");
    reveal_strlit("fco_");
}

proof fn lemma_ids_taken(items: Seq<JsonView>, one: int, two: int)
    requires
        0 <= one < two <= items.len(),
        needs_id(items[one]),
    ensures
        ids_taken(items.take(one)) < ids_taken(items.take(two)),
        ids_taken(items.take(two)) <= two,
    decreases two,
{
    let last = items.take(two);
    assert(last.drop_last() =~= items.take(two - 1));
    assert(last.last() == items[two - 1]);
    if one < two - 1 {
        lemma_ids_taken(items, one, two - 1);
    } else {
        lemma_few_ids_taken(items.take(one));
    }
}

proof fn lemma_few_ids_taken(items: Seq<JsonView>)
    ensures
        ids_taken(items) <= items.len(),
    decreases items.len(),
{
    if items.len() > 0 {
        lemma_few_ids_taken(items.drop_last());
    }
}

/// The identifier that an item is given tells what it is: a message, a call or the
/// output of a call. No two items that are added together are given the same one.
pub proof fn law_given_identifiers_differ(
    ids: IdSource,
    items: Seq<JsonView>,
    one: int,
    two: int,
)
    requires
        0 <= one < two < items.len(),
        needs_id(items[one]),
        needs_id(items[two]),
        ids.count + items.len() <= u64::MAX,
    ensures
        ({
            let added = named_items(ids, items);
            let item = items[one];
            &&& text_field(added[one], "id"@) is Some
            &&& text_field(added[one], "id"@) != text_field(added[two], "id"@)
            &&& has_prefix(
                text_field(added[one], "id"@)->0,
                if field(item, "role"@) is Some {
                    "msg_"@
                } else if text_field(item, "type"@) == Some("function_call"@) {
                    "fc_"@
                } else if text_field(item, "type"@) == Some("function_call_output"@) {
                    "fco_"@
                } else {
                    "msg_"@
                },
            )
        }),
{
    let added = named_items(ids, items);
    lemma_ids_taken(items, one, two);
    lemma_few_ids_taken(items.take(one));
    lemma_prefixes();
    let first = ids_taken(items.take(one));
    let second = ids_taken(items.take(two));
    lemma_after(ids, first, 0);
    lemma_after(ids, second, 0);
    let own = item_prefix(items[one]);
    let other = item_prefix(items[two]);
    let id = own + hexadecimal(ids.nanos as nat) + hexadecimal((ids.count + first) as nat);
    let next = other + hexadecimal(ids.nanos as nat) + hexadecimal((ids.count + second) as nat);
    assert(text_field(added[one], "id"@) == Some(id));
    assert(text_field(added[two], "id"@) == Some(next));
    assert(id.subrange(0, 0int + own.len()) =~= own);
    assert(next.subrange(0, 0int + other.len()) =~= other);
    if id == next {
        lemma_hexadecimal(ids.nanos as nat);
        assert(id[0] == own[0] && next[0] == other[0]);
        assert(id[2] == own[2] && next[2] == other[2]);
        assert(own == other);
        let start = (own.len() + hexadecimal(ids.nanos as nat).len()) as int;
        assert(id.skip(start) =~= hexadecimal((ids.count + first) as nat));
        assert(next.skip(start) =~= hexadecimal((ids.count + second) as nat));
        lemma_hexadecimal_is_injective((ids.count + first) as nat, (ids.count + second) as nat);
    }
}

proof fn lemma_others_were_there(items: Seq<JsonView>, id: Seq<char>, place: int)
    requires
        0 <= place < without_id(items, id).len(),
    ensures
        items.contains(without_id(items, id)[place]),
    decreases items.len(),
{
    reveal(Seq::filter);
    let front = items.drop_last();
    if place < without_id(front, id).len() {
        lemma_others_were_there(front, id, place);
        let i = front.index_of(without_id(front, id)[place]);
        assert(items[i] == front[i]);
    } else {
        assert(items[items.len() - 1] == items.last());
    }
}

/// A conversation changes in one place at a time. It opens empty, with the metadata it
/// is given. New metadata replaces the old and leaves the items, more items are put
/// behind the others and leave the metadata, and a deletion takes items out and nothing
/// else. The identifier and the time stay.
pub proof fn law_conversation_changes_in_one_place(
    before: ConversationView,
    metadata: Option<JsonView>,
    more: Seq<JsonView>,
    id: Seq<char>,
    now: u64,
)
    ensures
        ({
            let opened = opened_conversation(id, now, metadata);
            &&& (opened.id, opened.created_at) == (id, now)
            &&& opened.items.len() == 0
            &&& metadata matches Some(value) ==> opened.metadata == value
            &&& metadata is None ==> opened.metadata is Null
        }),
        ({
            let after = with_metadata(before, metadata);
            &&& (after.id, after.created_at) == (before.id, before.created_at)
            &&& after.items == before.items
            &&& metadata matches Some(value) ==> after.metadata == value
            &&& metadata is None ==> after.metadata is Null
        }),
        ({
            let after = with_more(before, more);
            &&& (after.id, after.created_at) == (before.id, before.created_at)
            &&& after.metadata == before.metadata
            &&& after.items == before.items + more
        }),
        ({
            let after = with_fewer(before, id);
            &&& (after.id, after.created_at) == (before.id, before.created_at)
            &&& after.metadata == before.metadata
            &&& forall|item: JsonView| #[trigger]
                after.items.contains(item) ==> before.items.contains(item) && !has_id(item, id)
            &&& forall|item: JsonView|
                (#[trigger] before.items.contains(item)) && !has_id(item, id)
                    ==> after.items.contains(item)
        }),
{
    let keep = |item: JsonView| !has_id(item, id);
    broadcast use vstd::seq_lib::group_filter_ensures;

    let left = before.items.filter(keep);
    assert forall|item: JsonView| #[trigger] left.contains(item) implies before.items.contains(
        item,
    ) && !has_id(item, id) by {
        let i = left.index_of(item);
        assert(keep(left[i]));
        lemma_others_were_there(before.items, id, i);
    }
    assert forall|item: JsonView|
        (#[trigger] before.items.contains(item)) && !has_id(item, id) implies left.contains(
        item,
    ) by {
        law_deleted_item_is_gone(before.items, id, item);
    }
}

proof fn lemma_first_found(items: Seq<JsonView>, id: Seq<char>, from: nat, place: int)
    requires
        from <= place < items.len(),
        has_id(items[place], id),
        forall|i: int| from <= i < place ==> !has_id(#[trigger] items[i], id),
    ensures
        item_with_id(items, id, from) == Some(items[place]),
    decreases items.len() - from,
{
    if from < place {
        lemma_first_found(items, id, from + 1, place);
    }
}

/// An item is given as it stands in the conversation, the first one where several have
/// the identifier. An identifier that none has is answered with 404.
pub proof fn law_item_is_given_as_it_stands(items: Seq<JsonView>, id: Seq<char>, place: int)
    ensures
        0 <= place < items.len() && has_id(items[place], id) && (forall|i: int|
            0 <= i < place ==> !has_id(#[trigger] items[i], id)) ==> item_reply(items, id)
            == success(items[place]),
        (forall|i: int| 0 <= i < items.len() ==> !has_id(#[trigger] items[i], id)) ==> item_reply(
            items,
            id,
        ).status == 404,
{
    lemma_found(items, id, 0);
    if 0 <= place < items.len() && has_id(items[place], id) && (forall|i: int|
        0 <= i < place ==> !has_id(#[trigger] items[i], id)) {
        lemma_first_found(items, id, 0, place);
    }
}

} // verus!
