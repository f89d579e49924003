//! Stored responses and conversations: their records, their identifiers and the
//! files that hold them.
//!
//! A record stands in one file that is named by its identifier. A file is written
//! under another name first and then renamed, so a reader sees a whole record or
//! none.

use vstd::prelude::*;

use crate::json::{
    clone_values,
    no_fields,
    unsigned,
    values_view,
    Json,
    JsonObject,
    JsonView,
};
use crate::json_text::{
    entries_bytes,
    entries_view,
    json_entries_to_vec,
    json_from_bytes,
    json_from_slice,
    keys_of,
    object_of,
    reads_as,
    reads_back,
};
use crate::records::{
    check_count,
    check_list,
    check_text,
    count_fault,
    lemma_record_is_sound,
    lemma_record_of_object,
    list_fault,
    read_record,
    record_fields,
    required_count,
    required_list,
    required_text,
    text_fault,
    the_count,
    the_list,
    the_text,
    unit_result,
    Record,
    RecordModel,
};
use crate::responses_shape::{array_of, IdSource};
use crate::text::{characters, has_prefix, hexadecimal, lemma_hexadecimal, same_text, slice, starts_with};

verus! {

/// The stored record of one response.
#[derive(Debug, PartialEq)]
pub struct StoredResponse {
    /// The response object, as it was returned.
    pub response: Json,
    /// The input items that the response answered, in order.
    pub input_items: Vec<Json>,
}

/// The meaning of a [`StoredResponse`].
#[verifier::ext_equal]
pub struct StoredResponseView {
    pub response: JsonView,
    pub input_items: Seq<JsonView>,
}

impl View for StoredResponse {
    type V = StoredResponseView;

    open spec fn view(&self) -> StoredResponseView {
        StoredResponseView {
            response: self.response@,
            input_items: values_view(self.input_items@),
        }
    }
}

impl Clone for StoredResponse {
    fn clone(&self) -> (copy: StoredResponse)
        ensures
            copy@ == self@,
    {
        StoredResponse {
            response: self.response.clone(),
            input_items: clone_values(&self.input_items),
        }
    }
}

/// The stored record of one conversation.
#[derive(Debug, PartialEq)]
pub struct ConversationRecord {
    pub id: String,
    pub created_at: u64,
    pub metadata: Json,
    pub items: Vec<Json>,
}

/// The meaning of a [`ConversationRecord`].
#[verifier::ext_equal]
pub struct ConversationView {
    pub id: Seq<char>,
    pub created_at: u64,
    pub metadata: JsonView,
    pub items: Seq<JsonView>,
}

impl View for ConversationRecord {
    type V = ConversationView;

    open spec fn view(&self) -> ConversationView {
        ConversationView {
            id: self.id@,
            created_at: self.created_at,
            metadata: self.metadata@,
            items: values_view(self.items@),
        }
    }
}

impl Clone for ConversationRecord {
    fn clone(&self) -> (copy: ConversationRecord)
        ensures
            copy@ == self@,
    {
        ConversationRecord {
            id: self.id.clone(),
            created_at: self.created_at,
            metadata: self.metadata.clone(),
            items: clone_values(&self.items),
        }
    }
}

/// The conversation object. The items are not part of it.
pub open spec fn conversation_object(record: ConversationView) -> JsonView {
    JsonView::Object(
        no_fields().insert("id"@, JsonView::Str(record.id)).insert(
            "object"@,
            JsonView::Str("conversation"@),
        ).insert("created_at"@, unsigned(record.created_at as nat)).insert(
            "metadata"@,
            record.metadata,
        ),
    )
}

impl ConversationRecord {
    /// The conversation object.
    pub fn response(&self) -> (object: Json)
        ensures
            object@ == conversation_object(self@),
    {
        Json::Object(
            JsonObject::new().with("id", Json::text(self.id.as_str())).with(
                "object",
                Json::text("conversation"),
            ).with("created_at", Json::unsigned(self.created_at)).with(
                "metadata",
                self.metadata.clone(),
            ),
        )
    }
}

/// A lower-case hexadecimal digit.
pub open spec fn is_hex_digit(c: char) -> bool {
    '0' <= c <= '9' || 'a' <= c <= 'f'
}

/// The prefix, and one or more lower-case hexadecimal digits behind it.
pub open spec fn is_hex_name(id: Seq<char>, prefix: Seq<char>) -> bool {
    &&& has_prefix(id, prefix)
    &&& id.len() > prefix.len()
    &&& forall|i: int| prefix.len() <= i < id.len() ==> is_hex_digit(#[trigger] id[i])
}

fn is_hex_id(id: &str, prefix: &str) -> (valid: bool)
    ensures
        valid == is_hex_name(id@, prefix@),
{
    if !starts_with(id, prefix) {
        return false;
    }
    let chars = characters(id);
    let from: usize = prefix.unicode_len();
    let size: usize = chars.len();
    if size <= from {
        return false;
    }
    for i in from..size
        invariant
            size == chars@.len(),
            chars@ == id@,
            from == prefix@.len(),
            forall|j: int| from <= j < i ==> is_hex_digit(#[trigger] id@[j]),
    {
        let c = chars[i];
        if !(('0' <= c && c <= '9') || ('a' <= c && c <= 'f')) {
            assert(!is_hex_digit(id@[i as int]));
            return false;
        }
    }
    true
}

/// True for `resp_` with one or more lower-case hexadecimal digits behind it. Only
/// such an identifier becomes a file name.
pub fn valid_id(id: &str) -> (valid: bool)
    ensures
        valid == is_hex_name(id@, "resp_"@),
{
    is_hex_id(id, "resp_")
}

/// True for `conv_` with one or more lower-case hexadecimal digits behind it.
pub fn valid_conversation_id(id: &str) -> (valid: bool)
    ensures
        valid == is_hex_name(id@, "conv_"@),
{
    is_hex_id(id, "conv_")
}

/// The file of a record.
pub open spec fn file_of(id: Seq<char>) -> Seq<char> {
    id + ".json"@
}

/// The file that a record is written to before it is renamed.
pub open spec fn temp_file_of(id: Seq<char>) -> Seq<char> {
    id + ".json.tmp"@
}

/// Why a record cannot be stored.
#[derive(Debug, Clone, Copy, PartialEq, Eq, Structural)]
pub enum StoreErrorKind {
    /// The identifier is none.
    InvalidInput,
    /// Anything else.
    Other,
}

/// Why a record cannot be stored, in kind and in words.
#[derive(Debug)]
pub struct StoreError {
    pub kind: StoreErrorKind,
    pub message: String,
}

/// What to write: the bytes, the file to write them to, and the file to rename
/// that one to.
#[derive(Debug)]
pub struct RecordWrite {
    pub temp_file: String,
    pub file: String,
    pub bytes: Vec<u8>,
}

/// The entries of a response record, in the order in which they are written.
pub open spec fn response_entries(record: StoredResponseView) -> Seq<(Seq<char>, JsonView)> {
    seq![("response"@, record.response), ("input_items"@, JsonView::Array(record.input_items))]
}

/// The entries of a conversation record, in the order in which they are written.
pub open spec fn conversation_entries(record: ConversationView) -> Seq<(Seq<char>, JsonView)> {
    seq![
        ("id"@, JsonView::Str(record.id)),
        ("created_at"@, unsigned(record.created_at as nat)),
        ("metadata"@, record.metadata),
        ("items"@, JsonView::Array(record.items)),
    ]
}

/// The write is that of the entries of a record under an identifier.
pub open spec fn writes(
    write: RecordWrite,
    id: Seq<char>,
    entries: Seq<(Seq<char>, JsonView)>,
) -> bool {
    &&& write.file@ == file_of(id)
    &&& write.temp_file@ == temp_file_of(id)
    &&& write.bytes@ == entries_bytes(entries)
    &&& reads_back(JsonView::Object(object_of(entries)), 127) ==> reads_as(
        write.bytes@,
        JsonView::Object(object_of(entries)),
    )
}

fn invalid_input(text: &str, id: &str) -> (error: StoreError)
    ensures
        error.kind is InvalidInput,
        error.message@ == text@ + id@,
{
    StoreError { kind: StoreErrorKind::InvalidInput, message: text.to_owned().concat(id) }
}

fn plan_write(id: &str, entries: &Vec<(String, Json)>) -> (plan: Result<RecordWrite, StoreError>)
    requires
        keys_of(entries_view(entries@)).no_duplicates(),
    ensures
        plan is Ok,
        plan matches Ok(write) ==> writes(write, id@, entries_view(entries@)),
{
    match json_entries_to_vec(entries) {
        Ok(bytes) => Ok(
            RecordWrite {
                temp_file: id.to_owned().concat(".json.tmp"),
                file: id.to_owned().concat(".json"),
                bytes,
            },
        ),
        Err(message) => Err(StoreError { kind: StoreErrorKind::Other, message }),
    }
}

proof fn lemma_record_keys()
    ensures
        "response"@.len() == 8,
        "input_items"@.len() == 11,
        "id"@.len() == 2,
        "created_at"@.len() == 10,
        "metadata"@.len() == 8,
        "items"@.len() == 5,
{
    reveal_strlit("response");
    reveal_strlit("input_items");
    reveal_strlit("id");
    reveal_strlit("created_at");
    reveal_strlit("metadata");
    reveal_strlit("items");
}

/// How to store a response. An identifier that is none is refused, and nothing else
/// is.
pub fn put_response(id: &str, record: &StoredResponse) -> (plan: Result<RecordWrite, StoreError>)
    ensures
        match plan {
            Ok(write) => is_hex_name(id@, "resp_"@) && writes(
                write,
                id@,
                response_entries(record@),
            ),
            Err(error) => {
                &&& !is_hex_name(id@, "resp_"@)
                &&& error.kind is InvalidInput
                &&& error.message@ == "invalid response id: "@ + id@
            },
        },
{
    if !valid_id(id) {
        return Err(invalid_input("invalid response id: ", id));
    }
    let mut entries: Vec<(String, Json)> = Vec::new();
    entries.push(("response".to_owned(), record.response.clone()));
    entries.push(("input_items".to_owned(), array_of(clone_values(&record.input_items))));
    proof {
        lemma_record_keys();
        assert(entries_view(entries@) =~= response_entries(record@));
    }
    plan_write(id, &entries)
}

/// How to store a conversation. An identifier that is none is refused, and nothing
/// else is.
pub fn put_conversation(id: &str, record: &ConversationRecord) -> (plan: Result<
    RecordWrite,
    StoreError,
>)
    ensures
        match plan {
            Ok(write) => is_hex_name(id@, "conv_"@) && writes(
                write,
                id@,
                conversation_entries(record@),
            ),
            Err(error) => {
                &&& !is_hex_name(id@, "conv_"@)
                &&& error.kind is InvalidInput
                &&& error.message@ == "invalid conversation id: "@ + id@
            },
        },
{
    if !valid_conversation_id(id) {
        return Err(invalid_input("invalid conversation id: ", id));
    }
    let mut entries: Vec<(String, Json)> = Vec::new();
    entries.push(("id".to_owned(), Json::text(record.id.as_str())));
    entries.push(("created_at".to_owned(), Json::unsigned(record.created_at)));
    entries.push(("metadata".to_owned(), record.metadata.clone()));
    entries.push(("items".to_owned(), array_of(clone_values(&record.items))));
    proof {
        lemma_record_keys();
        assert(entries_view(entries@) =~= conversation_entries(record@));
    }
    plan_write(id, &entries)
}

/// The file to read or to delete for a record with such a prefix. An identifier that
/// is none has no file.
pub open spec fn file_named(id: Seq<char>, prefix: Seq<char>) -> Option<Seq<char>> {
    if is_hex_name(id, prefix) {
        Some(file_of(id))
    } else {
        None
    }
}

/// The file to read or to delete for a response. An identifier that is none has no
/// file.
pub fn response_file(id: &str) -> (file: Option<String>)
    ensures
        file.deep_view() == file_named(id@, "resp_"@),
{
    if valid_id(id) {
        Some(id.to_owned().concat(".json"))
    } else {
        None
    }
}

/// The file to read or to delete for a conversation.
pub fn conversation_file(id: &str) -> (file: Option<String>)
    ensures
        file.deep_view() == file_named(id@, "conv_"@),
{
    if valid_conversation_id(id) {
        Some(id.to_owned().concat(".json"))
    } else {
        None
    }
}

/// The identifier whose response a file holds.
pub open spec fn id_of_file(name: Seq<char>) -> Option<Seq<char>> {
    let end = name.len() - 5;
    if end >= 0 && name.subrange(end, name.len() as int) == ".json"@ && is_hex_name(
        name.subrange(0, end),
        "resp_"@,
    ) {
        Some(name.subrange(0, end))
    } else {
        None
    }
}

/// The identifier whose response a file of the store holds. Another file holds
/// none.
pub fn listed_response_id(name: &str) -> (id: Option<String>)
    ensures
        id.deep_view() == id_of_file(name@),
{
    let total: usize = name.unicode_len();
    if total < 5 {
        return None;
    }
    let ending = slice(name, total - 5, total);
    if !same_text(ending.as_str(), ".json") {
        return None;
    }
    let id = slice(name, 0, total - 5);
    if valid_id(id.as_str()) {
        Some(id)
    } else {
        None
    }
}

/// The fault of a field of a response record.
pub open spec fn response_record_fault(key: Seq<char>, value: JsonView) -> Option<Seq<char>> {
    if key == "input_items"@ {
        list_fault(value)
    } else {
        None
    }
}

/// The record of a stored response.
pub open spec fn response_record_model() -> RecordModel {
    RecordModel {
        name: "StoredResponse"@,
        fields: seq!["response"@, "input_items"@],
        listed: "`response` or `input_items`"@,
        required: seq!["response"@, "input_items"@],
        closed: false,
        fault: |key: Seq<char>, value: JsonView| response_record_fault(key, value),
    }
}

impl Record for StoredResponse {
    open spec fn model() -> RecordModel {
        response_record_model()
    }

    fn name() -> (name: &'static str) {
        "StoredResponse"
    }

    fn fields() -> (fields: Vec<&'static str>) {
        let fields = vec!["response", "input_items"];
        assert(fields.deep_view() =~= response_record_model().fields);
        fields
    }

    fn listed() -> (listed: &'static str) {
        "`response` or `input_items`"
    }

    fn closed() -> (closed: bool) {
        false
    }

    fn required() -> (required: Vec<&'static str>) {
        let required = vec!["response", "input_items"];
        assert(required.deep_view() =~= response_record_model().required);
        required
    }

    fn fault(key: &str, value: &Json) -> (fault: Option<String>) {
        if same_text(key, "input_items") {
            check_list(value)
        } else {
            None
        }
    }
}

/// The response record that a value is read as, or its first fault.
pub open spec fn read_response_record(value: JsonView) -> Result<StoredResponseView, Seq<char>> {
    match record_fields(response_record_model(), value) {
        Ok(fields) => Ok(
            StoredResponseView {
                response: fields["response"@],
                input_items: the_list(fields, "input_items"@),
            },
        ),
        Err(fault) => Err(fault),
    }
}

/// The fault of a field of a conversation record.
pub open spec fn conversation_record_fault(key: Seq<char>, value: JsonView) -> Option<Seq<char>> {
    if key == "id"@ {
        text_fault(value)
    } else if key == "created_at"@ {
        count_fault(value)
    } else if key == "items"@ {
        list_fault(value)
    } else {
        None
    }
}

/// The record of a stored conversation.
pub open spec fn conversation_record_model() -> RecordModel {
    RecordModel {
        name: "ConversationRecord"@,
        fields: seq!["id"@, "created_at"@, "metadata"@, "items"@],
        listed: "one of `id`, `created_at`, `metadata`, `items`"@,
        required: seq!["id"@, "created_at"@, "metadata"@, "items"@],
        closed: false,
        fault: |key: Seq<char>, value: JsonView| conversation_record_fault(key, value),
    }
}

impl Record for ConversationRecord {
    open spec fn model() -> RecordModel {
        conversation_record_model()
    }

    fn name() -> (name: &'static str) {
        "ConversationRecord"
    }

    fn fields() -> (fields: Vec<&'static str>) {
        let fields = vec!["id", "created_at", "metadata", "items"];
        assert(fields.deep_view() =~= conversation_record_model().fields);
        fields
    }

    fn listed() -> (listed: &'static str) {
        "one of `id`, `created_at`, `metadata`, `items`"
    }

    fn closed() -> (closed: bool) {
        false
    }

    fn required() -> (required: Vec<&'static str>) {
        let required = vec!["id", "created_at", "metadata", "items"];
        assert(required.deep_view() =~= conversation_record_model().required);
        required
    }

    fn fault(key: &str, value: &Json) -> (fault: Option<String>) {
        if same_text(key, "id") {
            check_text(value)
        } else if same_text(key, "created_at") {
            check_count(value)
        } else if same_text(key, "items") {
            check_list(value)
        } else {
            None
        }
    }
}

/// The conversation record that a value is read as, or its first fault.
pub open spec fn read_conversation_record(value: JsonView) -> Result<
    ConversationView,
    Seq<char>,
> {
    match record_fields(conversation_record_model(), value) {
        Ok(fields) => Ok(
            ConversationView {
                id: the_text(fields, "id"@),
                created_at: the_count(fields, "created_at"@),
                metadata: fields["metadata"@],
                items: the_list(fields, "items"@),
            },
        ),
        Err(fault) => Err(fault),
    }
}

/// Reads a response record from its JSON value.
pub fn decode_response_record(value: &Json) -> (read: Result<StoredResponse, String>)
    ensures
        match read {
            Ok(record) => read_response_record(value@) == Ok::<StoredResponseView, Seq<char>>(
                record@,
            ),
            Err(fault) => read_response_record(value@) == Err::<StoredResponseView, Seq<char>>(
                fault@,
            ),
        },
{
    match read_record::<StoredResponse>(value) {
        Ok(fields) => {
            proof {
                let model = response_record_model();
                assert(model.fields[0] == model.required[0] && model.fields[1]
                    == model.required[1]);
                lemma_record_is_sound(model, value@);
                assert(fields@.contains_key(model.required[0]));
            }
            let response = match fields.get("response") {
                Some(response) => response.clone(),
                None => Json::Null,
            };
            Ok(StoredResponse { response, input_items: required_list(&fields, "input_items") })
        },
        Err(fault) => Err(fault),
    }
}

/// Reads a conversation record from its JSON value.
pub fn decode_conversation_record(value: &Json) -> (read: Result<ConversationRecord, String>)
    ensures
        match read {
            Ok(record) => read_conversation_record(value@) == Ok::<ConversationView, Seq<char>>(
                record@,
            ),
            Err(fault) => read_conversation_record(value@) == Err::<ConversationView, Seq<char>>(
                fault@,
            ),
        },
{
    match read_record::<ConversationRecord>(value) {
        Ok(fields) => {
            proof {
                let model = conversation_record_model();
                assert forall|i: int| 0 <= i < model.required.len() implies model.fields.contains(
                    #[trigger] model.required[i],
                ) by {
                    assert(model.fields[i] == model.required[i]);
                }
                lemma_record_is_sound(model, value@);
                assert(fields@.contains_key(model.required[2]));
            }
            let metadata = match fields.get("metadata") {
                Some(metadata) => metadata.clone(),
                None => Json::Null,
            };
            Ok(
                ConversationRecord {
                    id: required_text(&fields, "id"),
                    created_at: required_count(&fields, "created_at"),
                    metadata,
                    items: required_list(&fields, "items"),
                },
            )
        },
        Err(fault) => Err(fault),
    }
}

/// The response record that the bytes of a file are read as, or why they are none.
/// `direct` is what decoding the bytes as a record in one go came to. It comes first:
/// it fails also on a field that is given twice, and its message says where.
pub open spec fn stored_response(bytes: Seq<u8>, direct: Result<(), Seq<char>>) -> Result<
    StoredResponseView,
    Seq<char>,
> {
    match direct {
        Err(message) => Err(message),
        Ok(_) => match json_from_bytes(bytes) {
            Ok(value) => read_response_record(value),
            Err(error) => Err(error),
        },
    }
}

/// The conversation record that the bytes of a file are read as, or why they are
/// none. `direct` is as for [`stored_response`].
pub open spec fn stored_conversation(bytes: Seq<u8>, direct: Result<(), Seq<char>>) -> Result<
    ConversationView,
    Seq<char>,
> {
    match direct {
        Err(message) => Err(message),
        Ok(_) => match json_from_bytes(bytes) {
            Ok(value) => read_conversation_record(value),
            Err(error) => Err(error),
        },
    }
}

/// Reads a response record from the bytes of its file. `direct` is what decoding the
/// bytes as a record in one go came to: where that failed, its message holds.
pub fn read_response(bytes: &[u8], direct: Result<(), String>) -> (read: Result<
    StoredResponse,
    String,
>)
    ensures
        match read {
            Ok(record) => stored_response(bytes@, unit_result(direct)) == Ok::<
                StoredResponseView,
                Seq<char>,
            >(record@),
            Err(message) => stored_response(bytes@, unit_result(direct)) == Err::<
                StoredResponseView,
                Seq<char>,
            >(message@),
        },
{
    if let Err(message) = direct {
        return Err(message);
    }
    match json_from_slice(bytes) {
        Ok(value) => decode_response_record(&value),
        Err(message) => Err(message),
    }
}

/// Reads a conversation record from the bytes of its file. `direct` is as for
/// [`read_response`].
pub fn read_conversation(bytes: &[u8], direct: Result<(), String>) -> (read: Result<
    ConversationRecord,
    String,
>)
    ensures
        match read {
            Ok(record) => stored_conversation(bytes@, unit_result(direct)) == Ok::<
                ConversationView,
                Seq<char>,
            >(record@),
            Err(message) => stored_conversation(bytes@, unit_result(direct)) == Err::<
                ConversationView,
                Seq<char>,
            >(message@),
        },
{
    if let Err(message) = direct {
        return Err(message);
    }
    match json_from_slice(bytes) {
        Ok(value) => decode_conversation_record(&value),
        Err(message) => Err(message),
    }
}

/// What a read of a response finds, given the bytes of its file where there is one.
/// Under an identifier that is none it finds nothing. `direct` is as for
/// [`stored_response`].
pub open spec fn response_found(
    id: Seq<char>,
    contents: Option<Seq<u8>>,
    direct: Result<(), Seq<char>>,
) -> Result<Option<StoredResponseView>, Seq<char>> {
    match contents {
        Some(bytes) if is_hex_name(id, "resp_"@) => match stored_response(bytes, direct) {
            Ok(record) => Ok(Some(record)),
            Err(message) => Err(message),
        },
        _ => Ok(None),
    }
}

/// What a read of a conversation finds, given the bytes of its file where there is
/// one. Under an identifier that is none it finds nothing.
pub open spec fn conversation_found(
    id: Seq<char>,
    contents: Option<Seq<u8>>,
    direct: Result<(), Seq<char>>,
) -> Result<Option<ConversationView>, Seq<char>> {
    match contents {
        Some(bytes) if is_hex_name(id, "conv_"@) => match stored_conversation(bytes, direct) {
            Ok(record) => Ok(Some(record)),
            Err(message) => Err(message),
        },
        _ => Ok(None),
    }
}

/// Finds a response, given the bytes of the file that [`response_file`] names, where
/// there is one. `direct` is as for [`read_response`].
pub fn found_response(
    id: &str,
    contents: Option<&[u8]>,
    direct: Result<(), String>,
) -> (found: Result<Option<StoredResponse>, String>)
    ensures
        ({
            let contents = match contents {
                Some(bytes) => Some(bytes@),
                None => None,
            };
            match response_found(id@, contents, unit_result(direct)) {
                Ok(Some(record)) => found matches Ok(Some(read)) && read@ == record,
                Ok(None) => found matches Ok(None),
                Err(message) => found matches Err(error) && error@ == message,
            }
        }),
{
    match contents {
        Some(bytes) => {
            if !valid_id(id) {
                return Ok(None);
            }
            match read_response(bytes, direct) {
                Ok(record) => Ok(Some(record)),
                Err(message) => Err(message),
            }
        },
        None => Ok(None),
    }
}

/// Finds a conversation, given the bytes of the file that [`conversation_file`] names,
/// where there is one. `direct` is as for [`read_response`].
pub fn found_conversation(
    id: &str,
    contents: Option<&[u8]>,
    direct: Result<(), String>,
) -> (found: Result<Option<ConversationRecord>, String>)
    ensures
        ({
            let contents = match contents {
                Some(bytes) => Some(bytes@),
                None => None,
            };
            match conversation_found(id@, contents, unit_result(direct)) {
                Ok(Some(record)) => found matches Ok(Some(read)) && read@ == record,
                Ok(None) => found matches Ok(None),
                Err(message) => found matches Err(error) && error@ == message,
            }
        }),
{
    match contents {
        Some(bytes) => {
            if !valid_conversation_id(id) {
                return Ok(None);
            }
            match read_conversation(bytes, direct) {
                Ok(record) => Ok(Some(record)),
                Err(message) => Err(message),
            }
        },
        None => Ok(None),
    }
}

/// True where a deletion deletes a record, given whether its file was there. Under an
/// identifier that is none there is nothing to delete.
pub open spec fn is_deleted(id: Seq<char>, prefix: Seq<char>, present: bool) -> bool {
    is_hex_name(id, prefix) && present
}

/// Says whether a response was deleted, given whether the file that [`response_file`]
/// names was there and was removed.
pub fn deleted_response(id: &str, removed: bool) -> (deleted: bool)
    ensures
        deleted == is_deleted(id@, "resp_"@, removed),
{
    removed && valid_id(id)
}

/// Says whether a conversation was deleted, given whether the file that
/// [`conversation_file`] names was there and was removed.
pub fn deleted_conversation(id: &str, removed: bool) -> (deleted: bool)
    ensures
        deleted == is_deleted(id@, "conv_"@, removed),
{
    removed && valid_conversation_id(id)
}

proof fn lemma_response_object(record: StoredResponseView)
    ensures
        read_response_record(JsonView::Object(object_of(response_entries(record)))) == Ok::<
            StoredResponseView,
            Seq<char>,
        >(record),
{
    lemma_record_keys();
    let entries = response_entries(record);
    let object = object_of(entries);
    reveal_with_fuel(object_of, 3);
    assert(entries.drop_last().drop_last() =~= Seq::empty());
    assert(object =~= no_fields().insert("response"@, record.response).insert(
        "input_items"@,
        JsonView::Array(record.input_items),
    ));
    let model = response_record_model();
    assert forall|key: Seq<char>| object.contains_key(key) implies model.fields.contains(key) && (
    model.fault)(key, #[trigger] object[key]) is None by {
        assert(model.fields[0] == "response"@ && model.fields[1] == "input_items"@);
    }
    lemma_record_of_object(model, object);
}

proof fn lemma_conversation_object(record: ConversationView)
    ensures
        read_conversation_record(JsonView::Object(object_of(conversation_entries(record)))) == Ok::<
            ConversationView,
            Seq<char>,
        >(record),
{
    lemma_record_keys();
    let entries = conversation_entries(record);
    let object = object_of(entries);
    reveal_with_fuel(object_of, 5);
    assert(entries.drop_last().drop_last().drop_last().drop_last() =~= Seq::empty());
    assert(object =~= no_fields().insert("id"@, JsonView::Str(record.id)).insert(
        "created_at"@,
        unsigned(record.created_at as nat),
    ).insert("metadata"@, record.metadata).insert("items"@, JsonView::Array(record.items)));
    assert(object["id"@] == JsonView::Str(record.id));
    assert(object["created_at"@] == unsigned(record.created_at as nat));
    assert(object["metadata"@] == record.metadata);
    assert(object["items"@] == JsonView::Array(record.items));
    let model = conversation_record_model();
    assert forall|key: Seq<char>| object.contains_key(key) implies model.fields.contains(key) && (
    model.fault)(key, #[trigger] object[key]) is None by {
        assert(model.fields[0] == "id"@ && model.fields[1] == "created_at"@ && model.fields[2]
            == "metadata"@ && model.fields[3] == "items"@);
    }
    lemma_record_of_object(model, object);
}

/// What the file of a stored response holds reads back as the record, wherever its
/// JSON value is one that is read back at all.
pub proof fn law_stored_response_reads_back(
    write: RecordWrite,
    id: Seq<char>,
    record: StoredResponseView,
)
    requires
        writes(write, id, response_entries(record)),
        reads_back(JsonView::Object(object_of(response_entries(record))), 127),
    ensures
        stored_response(write.bytes@, Ok(())) == Ok::<StoredResponseView, Seq<char>>(record),
{
    lemma_response_object(record);
}

/// What the file of a stored conversation holds reads back as the record, wherever
/// its JSON value is one that is read back at all.
pub proof fn law_stored_conversation_reads_back(
    write: RecordWrite,
    id: Seq<char>,
    record: ConversationView,
)
    requires
        writes(write, id, conversation_entries(record)),
        reads_back(JsonView::Object(object_of(conversation_entries(record))), 127),
    ensures
        stored_conversation(write.bytes@, Ok(())) == Ok::<ConversationView, Seq<char>>(record),
{
    lemma_conversation_object(record);
}

/// A character that cannot lead out of the store's directory.
pub open spec fn is_plain(c: char) -> bool {
    'a' <= c <= 'z' || '0' <= c <= '9' || c == '_' || c == '.'
}

/// No identifier leads to a file outside the store's directory: the file names are
/// made of letters, digits, `_` and `.`, and do not begin with a dot.
pub proof fn law_files_stay_in_the_store(id: Seq<char>)
    requires
        is_hex_name(id, "resp_"@) || is_hex_name(id, "conv_"@),
    ensures
        forall|i: int| 0 <= i < file_of(id).len() ==> is_plain(#[trigger] file_of(id)[i]),
        forall|i: int| 0 <= i < temp_file_of(id).len() ==> is_plain(#[trigger] temp_file_of(id)[i]),
        file_of(id)[0] != '.',
        temp_file_of(id)[0] != '.',
{
    reveal_strlit("resp_");
    reveal_strlit("conv_");
    reveal_strlit(".json");
    reveal_strlit(".json.tmp");
    let prefix = if is_hex_name(id, "resp_"@) {
        "resp_"@
    } else {
        "conv_"@
    };
    assert(id.subrange(0, 5) == prefix);
    assert forall|i: int| 0 <= i < id.len() implies is_plain(#[trigger] id[i]) by {
        if i < 5 {
            assert(id[i] == prefix[i]);
        }
    }
    assert(id[0] == prefix[0]);
    assert forall|i: int| 0 <= i < file_of(id).len() implies is_plain(
        #[trigger] file_of(id)[i],
    ) by {
        if i >= id.len() {
            assert(file_of(id)[i] == ".json"@[i - id.len()]);
        }
    }
    assert forall|i: int| 0 <= i < temp_file_of(id).len() implies is_plain(
        #[trigger] temp_file_of(id)[i],
    ) by {
        if i >= id.len() {
            assert(temp_file_of(id)[i] == ".json.tmp"@[i - id.len()]);
        }
    }
}

/// Every identifier that is made for a response or a conversation is one under which
/// it can be stored.
pub proof fn law_made_identifiers_are_valid(ids: IdSource, taken: nat)
    ensures
        is_hex_name(ids.id("resp_"@, taken), "resp_"@),
        is_hex_name(ids.id("conv_"@, taken), "conv_"@),
{
    lemma_made_identifier(ids, taken, "resp_"@);
    lemma_made_identifier(ids, taken, "conv_"@);
}

proof fn lemma_made_identifier(ids: IdSource, taken: nat, prefix: Seq<char>)
    ensures
        is_hex_name(ids.id(prefix, taken), prefix),
{
    let id = ids.id(prefix, taken);
    let time = hexadecimal(ids.nanos as nat);
    let count = hexadecimal(ids.after(taken).count as nat);
    lemma_hexadecimal(ids.nanos as nat);
    lemma_hexadecimal(ids.after(taken).count as nat);
    assert(id.subrange(0, prefix.len() as int) =~= prefix);
    assert forall|i: int| prefix.len() <= i < id.len() implies is_hex_digit(#[trigger] id[i]) by {
        if i < prefix.len() + time.len() {
            assert(id[i] == time[i - prefix.len()]);
        } else {
            assert(id[i] == count[i - prefix.len() - time.len()]);
        }
    }
}

/// Every stored response is listed under its identifier, and no other file is:
/// the listing is the inverse of the naming.
pub proof fn law_listing_inverts_naming(id: Seq<char>)
    requires
        is_hex_name(id, "resp_"@),
    ensures
        id_of_file(file_of(id)) == Some(id),
        id_of_file(temp_file_of(id)) is None,
{
    reveal_strlit(".json");
    reveal_strlit(".json.tmp");
    let name = file_of(id);
    assert(name.subrange(0, name.len() - 5) =~= id);
    assert(name.subrange(name.len() - 5, name.len() as int) =~= ".json"@);
    let temp = temp_file_of(id);
    let ending = temp.subrange(temp.len() - 5, temp.len() as int);
    assert(ending[4] == 'p');
    assert(".json"@[4] == 'n');
}

/// Two identifiers share no file, and a response shares none with a conversation.
pub proof fn law_files_are_distinct(first: Seq<char>, second: Seq<char>)
    requires
        first != second,
    ensures
        file_of(first) != file_of(second),
{
    if file_of(first) == file_of(second) {
        assert(file_of(first).len() == first.len() + ".json"@.len());
        assert(first =~= file_of(first).subrange(0, first.len() as int));
        assert(second =~= file_of(second).subrange(0, second.len() as int));
    }
}

/// What a record of the store is.
pub enum RecordKind {
    Response,
    Conversation,
}

impl RecordKind {
    /// The prefix of the identifiers.
    pub open spec fn prefix(self) -> Seq<char> {
        match self {
            RecordKind::Response => "resp_"@,
            RecordKind::Conversation => "conv_"@,
        }
    }
}

/// One call that changes the files of a store.
pub enum StoreCall {
    /// A record is written.
    Put { kind: RecordKind, id: Seq<char>, bytes: Seq<u8> },
    /// A write breaks off before the renaming, and something is left of it.
    BrokenPut { kind: RecordKind, id: Seq<char>, left: Seq<u8> },
    /// A record is deleted.
    Delete { kind: RecordKind, id: Seq<char> },
}

impl StoreCall {
    /// The kind of the record.
    pub open spec fn kind(self) -> RecordKind {
        match self {
            StoreCall::Put { kind, .. } => kind,
            StoreCall::BrokenPut { kind, .. } => kind,
            StoreCall::Delete { kind, .. } => kind,
        }
    }

    /// The identifier of the record.
    pub open spec fn id(self) -> Seq<char> {
        match self {
            StoreCall::Put { id, .. } => id,
            StoreCall::BrokenPut { id, .. } => id,
            StoreCall::Delete { id, .. } => id,
        }
    }
}

/// The files of a store, by their names, after a planned write was carried out: what
/// is written under the one name is renamed to the other.
pub open spec fn after_write(
    files: Map<Seq<char>, Seq<u8>>,
    temp_file: Seq<char>,
    file: Seq<char>,
    bytes: Seq<u8>,
) -> Map<Seq<char>, Seq<u8>> {
    files.remove(temp_file).insert(file, bytes)
}

/// The files of a store after a call. One under an identifier that is none has no
/// file to touch.
pub open spec fn after_call(files: Map<Seq<char>, Seq<u8>>, call: StoreCall) -> Map<
    Seq<char>,
    Seq<u8>,
> {
    match file_named(call.id(), call.kind().prefix()) {
        None => files,
        Some(file) => match call {
            StoreCall::Put { id, bytes, .. } => after_write(files, temp_file_of(id), file, bytes),
            StoreCall::BrokenPut { id, left, .. } => files.insert(temp_file_of(id), left),
            StoreCall::Delete { .. } => files.remove(file),
        },
    }
}

/// The files of a store after calls, in their order.
pub open spec fn after_store_calls(files: Map<Seq<char>, Seq<u8>>, calls: Seq<StoreCall>) -> Map<
    Seq<char>,
    Seq<u8>,
>
    decreases calls.len(),
{
    if calls.len() == 0 {
        files
    } else {
        after_call(after_store_calls(files, calls.drop_last()), calls.last())
    }
}

/// The bytes of a file, where there is one.
pub open spec fn contents_of(files: Map<Seq<char>, Seq<u8>>, file: Seq<char>) -> Option<Seq<u8>> {
    if files.contains_key(file) {
        Some(files[file])
    } else {
        None
    }
}

/// What a read of a response finds in the files of a store.
pub open spec fn response_in(
    files: Map<Seq<char>, Seq<u8>>,
    id: Seq<char>,
    direct: Result<(), Seq<char>>,
) -> Result<Option<StoredResponseView>, Seq<char>> {
    response_found(id, contents_of(files, file_of(id)), direct)
}

/// What a read of a conversation finds in the files of a store.
pub open spec fn conversation_in(
    files: Map<Seq<char>, Seq<u8>>,
    id: Seq<char>,
    direct: Result<(), Seq<char>>,
) -> Result<Option<ConversationView>, Seq<char>> {
    conversation_found(id, contents_of(files, file_of(id)), direct)
}

/// A deletion finds a record to delete.
pub open spec fn finds_to_delete(
    files: Map<Seq<char>, Seq<u8>>,
    kind: RecordKind,
    id: Seq<char>,
) -> bool {
    is_deleted(id, kind.prefix(), files.contains_key(file_of(id)))
}

/// None of the calls names the identifier.
pub open spec fn spares(calls: Seq<StoreCall>, id: Seq<char>) -> bool {
    forall|i: int| 0 <= i < calls.len() ==> (#[trigger] calls[i]).id() != id
}

proof fn lemma_spared_file_stays(
    files: Map<Seq<char>, Seq<u8>>,
    calls: Seq<StoreCall>,
    id: Seq<char>,
)
    requires
        spares(calls, id),
    ensures
        contents_of(after_store_calls(files, calls), file_of(id)) == contents_of(
            files,
            file_of(id),
        ),
    decreases calls.len(),
{
    if calls.len() > 0 {
        let front = calls.drop_last();
        assert(spares(front, id)) by {
            assert forall|i: int| 0 <= i < front.len() implies (#[trigger] front[i]).id()
                != id by {
                assert(front[i] == calls[i]);
            }
        }
        lemma_spared_file_stays(files, front, id);
        let other = calls.last().id();
        assert(calls[calls.len() - 1].id() != id);
        law_files_are_distinct(other, id);
        reveal_strlit(".json");
        reveal_strlit(".json.tmp");
        assert(temp_file_of(other).last() == 'p' && file_of(id).last() == 'n');
    }
}

/// A response that was stored is read back after any calls under other identifiers,
/// also ones that break off, wherever its JSON value is one that is read back at all.
/// It can be deleted, once: from then on a read finds nothing and a deletion has
/// nothing to delete, whatever is called under other identifiers.
pub proof fn law_store_keeps_a_response(
    files: Map<Seq<char>, Seq<u8>>,
    write: RecordWrite,
    id: Seq<char>,
    record: StoredResponseView,
    calls: Seq<StoreCall>,
    later: Seq<StoreCall>,
)
    requires
        is_hex_name(id, "resp_"@),
        writes(write, id, response_entries(record)),
        reads_back(JsonView::Object(object_of(response_entries(record))), 127),
        spares(calls, id),
        spares(later, id),
    ensures
        ({
            let stored = after_write(files, write.temp_file@, write.file@, write.bytes@);
            let kept = after_store_calls(stored, calls);
            let deleted = after_call(kept, StoreCall::Delete { kind: RecordKind::Response, id });
            let gone = after_store_calls(deleted, later);
            &&& response_in(kept, id, Ok(())) == Ok::<Option<StoredResponseView>, Seq<char>>(
                Some(record),
            )
            &&& finds_to_delete(kept, RecordKind::Response, id)
            &&& response_in(gone, id, Ok(())) == Ok::<Option<StoredResponseView>, Seq<char>>(None)
            &&& !finds_to_delete(gone, RecordKind::Response, id)
        }),
{
    let stored = after_write(files, write.temp_file@, write.file@, write.bytes@);
    let kept = after_store_calls(stored, calls);
    let deleted = after_call(kept, StoreCall::Delete { kind: RecordKind::Response, id });
    lemma_spared_file_stays(stored, calls, id);
    lemma_spared_file_stays(deleted, later, id);
    law_stored_response_reads_back(write, id, record);
}

/// A conversation that was stored is read back after any calls under other
/// identifiers, also ones that break off, wherever its JSON value is one that is read
/// back at all. It can be deleted, once: from then on a read finds nothing and a
/// deletion has nothing to delete, whatever is called under other identifiers.
pub proof fn law_store_keeps_a_conversation(
    files: Map<Seq<char>, Seq<u8>>,
    write: RecordWrite,
    id: Seq<char>,
    record: ConversationView,
    calls: Seq<StoreCall>,
    later: Seq<StoreCall>,
)
    requires
        is_hex_name(id, "conv_"@),
        writes(write, id, conversation_entries(record)),
        reads_back(JsonView::Object(object_of(conversation_entries(record))), 127),
        spares(calls, id),
        spares(later, id),
    ensures
        ({
            let stored = after_write(files, write.temp_file@, write.file@, write.bytes@);
            let kept = after_store_calls(stored, calls);
            let deleted = after_call(
                kept,
                StoreCall::Delete { kind: RecordKind::Conversation, id },
            );
            let gone = after_store_calls(deleted, later);
            &&& conversation_in(kept, id, Ok(())) == Ok::<Option<ConversationView>, Seq<char>>(
                Some(record),
            )
            &&& finds_to_delete(kept, RecordKind::Conversation, id)
            &&& conversation_in(gone, id, Ok(())) == Ok::<Option<ConversationView>, Seq<char>>(None)
            &&& !finds_to_delete(gone, RecordKind::Conversation, id)
        }),
{
    let stored = after_write(files, write.temp_file@, write.file@, write.bytes@);
    let kept = after_store_calls(stored, calls);
    let deleted = after_call(kept, StoreCall::Delete { kind: RecordKind::Conversation, id });
    lemma_spared_file_stays(stored, calls, id);
    lemma_spared_file_stays(deleted, later, id);
    law_stored_conversation_reads_back(write, id, record);
}

/// Under an identifier that is none, no call touches a file, a read finds nothing and
/// a deletion has nothing to delete, whatever the store holds.
pub proof fn law_refused_identifiers_touch_nothing(
    files: Map<Seq<char>, Seq<u8>>,
    call: StoreCall,
    direct: Result<(), Seq<char>>,
)
    requires
        !is_hex_name(call.id(), call.kind().prefix()),
    ensures
        after_call(files, call) == files,
        !finds_to_delete(files, call.kind(), call.id()),
        match call.kind() {
            RecordKind::Response => response_in(files, call.id(), direct) == Ok::<
                Option<StoredResponseView>,
                Seq<char>,
            >(None),
            RecordKind::Conversation => conversation_in(files, call.id(), direct) == Ok::<
                Option<ConversationView>,
                Seq<char>,
            >(None),
        },
{
}

} // verus!
