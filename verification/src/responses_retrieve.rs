//! Reading, replaying and deleting stored responses.
//!
//! Each route first decides whether the request goes on, before the store is
//! touched, and then what the reply is for what the store gave.

use vstd::prelude::*;

use crate::json::{no_fields, text_field, values_view, Json, JsonObject, JsonView};
use crate::responses_events::{can_replay, replay_stream_body, replayed};
use crate::responses_http::{
    auth_guard,
    auth_refusal,
    error_json,
    failure,
    fields_of,
    no_response,
    not_found,
    ok_json,
    query_fields,
    query_view,
    sse_response,
    streamed,
    success,
    unsupported_field,
    Reply,
    ReplyView,
};
use crate::responses_shape::array_of;
use crate::responses_store::{StoredResponse, StoredResponseView};
use crate::seqs::{lemma_try_fold_step, try_fold};
use crate::text::{parse_u32, read_unsigned, same_text};

verus! {

/// The query of a retrieval.
#[derive(Clone, Copy, Debug, PartialEq, Eq, Structural)]
pub struct RetrieveQuery {
    /// Whether the stored stream is replayed.
    pub stream: bool,
    /// The number of the last event that is left out.
    pub starting_after: Option<u32>,
}

/// A query field: its name and its value.
pub type QueryFieldView = (Seq<char>, Option<Seq<char>>);

/// What one more field makes of a query, or why it is refused.
pub open spec fn with_field(query: RetrieveQuery, field: QueryFieldView) -> Result<
    RetrieveQuery,
    Seq<char>,
> {
    if field.0 == "stream"@ {
        if field.1 == Some("true"@) {
            Ok(RetrieveQuery { stream: true, starting_after: query.starting_after })
        } else if field.1 == Some("false"@) {
            Ok(RetrieveQuery { stream: false, starting_after: query.starting_after })
        } else {
            Err("`stream` must be `true` or `false`"@)
        }
    } else if field.0 == "starting_after"@ {
        match field.1 {
            Some(value) => match read_unsigned(value, u32::MAX as nat) {
                Some(after) => Ok(
                    RetrieveQuery { stream: query.stream, starting_after: Some(after as u32) },
                ),
                None => Err("`starting_after` must be a non-negative integer"@),
            },
            None => Err("`starting_after` must be a non-negative integer"@),
        }
    } else {
        Err(unsupported_field(field.0))
    }
}

/// Takes one more query field.
pub open spec fn query_step() -> spec_fn(RetrieveQuery, QueryFieldView) -> Result<
    RetrieveQuery,
    Seq<char>,
> {
    |query: RetrieveQuery, field: QueryFieldView| with_field(query, field)
}

/// The query before its first field.
pub open spec fn no_query() -> RetrieveQuery {
    RetrieveQuery { stream: false, starting_after: None }
}

/// The query of a retrieval, or why it is refused. The last of two fields of one
/// name holds.
pub open spec fn read_query(query: Seq<char>) -> Result<RetrieveQuery, Seq<char>> {
    match try_fold(query_step(), no_query(), fields_of(query)) {
        Err(message) => Err(message),
        Ok(read) => if read.starting_after is Some && !read.stream {
            Err("`starting_after` requires `stream=true`"@)
        } else {
            Ok(read)
        },
    }
}

fn take_field(query: RetrieveQuery, name: &str, value: &Option<String>) -> (read: Result<
    RetrieveQuery,
    String,
>)
    ensures
        match read {
            Ok(next) => with_field(query, (name@, value.deep_view())) == Ok::<
                RetrieveQuery,
                Seq<char>,
            >(next),
            Err(message) => with_field(query, (name@, value.deep_view())) == Err::<
                RetrieveQuery,
                Seq<char>,
            >(message@),
        },
{
    if same_text(name, "stream") {
        proof {
            reveal_strlit("true");
            reveal_strlit("false");
            assert("true"@.len() != "false"@.len());
        }
        if let Some(value) = value {
            if same_text(value.as_str(), "true") {
                return Ok(RetrieveQuery { stream: true, starting_after: query.starting_after });
            }
            if same_text(value.as_str(), "false") {
                return Ok(RetrieveQuery { stream: false, starting_after: query.starting_after });
            }
        }
        return Err("`stream` must be `true` or `false`".to_owned());
    }
    if same_text(name, "starting_after") {
        if let Some(value) = value {
            if let Some(after) = parse_u32(value.as_str()) {
                return Ok(RetrieveQuery { stream: query.stream, starting_after: Some(after) });
            }
        }
        return Err("`starting_after` must be a non-negative integer".to_owned());
    }
    Err(
        "unsupported query field `".to_owned().concat(name).concat("` on this route"),
    )
}

/// Reads the query of a retrieval. `stream` is `true` or `false`;
/// `starting_after` is a non-negative integer and needs `stream=true`; any other
/// field is refused by name.
pub fn parse_retrieve_query(query: &str) -> (read: Result<RetrieveQuery, Reply>)
    ensures
        match read {
            Ok(found) => read_query(query@) == Ok::<RetrieveQuery, Seq<char>>(found),
            Err(reply) => read_query(query@) is Err && reply@ == failure(
                400,
                read_query(query@)->Err_0,
            ),
        },
{
    let fields = query_fields(query);
    let ghost views = query_view(fields@);
    let ghost f = query_step();
    let mut read = RetrieveQuery { stream: false, starting_after: None };
    assert(views.take(0) =~= Seq::empty());
    let size: usize = fields.len();
    for i in 0..size
        invariant
            size == fields@.len(),
            views == query_view(fields@),
            views == fields_of(query@),
            f == query_step(),
            try_fold(f, no_query(), views.take(i as int)) == Ok::<RetrieveQuery, Seq<char>>(read),
    {
        proof {
            lemma_try_fold_step(f, no_query(), views, i as int);
            assert(views[i as int] == (fields@[i as int].0@, fields@[i as int].1.deep_view()));
        }
        match take_field(read, fields[i].0.as_str(), &fields[i].1) {
            Ok(next) => {
                read = next;
            },
            Err(message) => {
                return Err(error_json(400, message));
            },
        }
    }
    assert(views.take(size as int) =~= views);
    if read.starting_after.is_some() && !read.stream {
        return Err(error_json(400, "`starting_after` requires `stream=true`".to_owned()));
    }
    Ok(read)
}

/// The refusal of a retrieval: of its credential, then of its query.
pub open spec fn retrieval_refusal(
    api_key: Seq<char>,
    authorization: Option<Seq<char>>,
    query: Seq<char>,
) -> Option<ReplyView> {
    match auth_refusal(api_key, authorization) {
        Some(reply) => Some(reply),
        None => match read_query(query) {
            Ok(_) => None,
            Err(message) => Some(failure(400, message)),
        },
    }
}

/// Decides whether a retrieval goes on, before the store is read.
pub fn admit_retrieval(api_key: &str, authorization: Option<&str>, query: &str) -> (admitted: Result<
    RetrieveQuery,
    Reply,
>)
    ensures
        match admitted {
            Ok(read) => retrieval_refusal(api_key@, authorization.deep_view(), query@) is None
                && read_query(query@) == Ok::<RetrieveQuery, Seq<char>>(read),
            Err(reply) => retrieval_refusal(api_key@, authorization.deep_view(), query@) == Some(
                reply@,
            ),
        },
{
    match auth_guard(api_key, authorization) {
        Some(reply) => Err(reply),
        None => parse_retrieve_query(query),
    }
}

/// What a store read gave.
pub open spec fn found_view(found: Result<Option<StoredResponse>, String>) -> Result<
    Option<StoredResponseView>,
    Seq<char>,
> {
    match found {
        Ok(Some(record)) => Ok(Some(record@)),
        Ok(None) => Ok(None),
        Err(error) => Err(error@),
    }
}

/// The wording for a store that could not be read.
pub open spec fn store_unreadable(error: Seq<char>) -> Seq<char> {
    "failed to read the response store: "@ + error
}

/// The reply to a retrieval.
pub open spec fn retrieval_reply(
    query: RetrieveQuery,
    id: Seq<char>,
    found: Result<Option<StoredResponseView>, Seq<char>>,
) -> ReplyView {
    match found {
        Ok(Some(record)) => if !query.stream {
            success(record.response)
        } else if can_replay(record.response) {
            streamed(replayed(record.response, query.starting_after))
        } else {
            failure(500, "the stored response cannot be replayed"@)
        },
        Ok(None) => failure(404, no_response(id)),
        Err(error) => failure(500, store_unreadable(error)),
    }
}

/// The reply to the retrieval of a response, for what the store gave: the stored
/// body, or the replay of its stream.
pub fn get_response(
    query: RetrieveQuery,
    id: &str,
    found: Result<Option<StoredResponse>, String>,
) -> (reply: Reply)
    ensures
        reply@ == retrieval_reply(query, id@, found_view(found)),
{
    match found {
        Ok(Some(record)) => {
            if query.stream {
                match replay_stream_body(&record.response, query.starting_after) {
                    Some(body) => sse_response(body),
                    None => error_json(500, "the stored response cannot be replayed".to_owned()),
                }
            } else {
                ok_json(record.response)
            }
        },
        Ok(None) => not_found(id),
        Err(error) => error_json(
            500,
            "failed to read the response store: ".to_owned().concat(error.as_str()),
        ),
    }
}

/// The body that confirms a deletion.
pub open spec fn deletion(id: Seq<char>, object: Seq<char>) -> JsonView {
    JsonView::Object(
        no_fields().insert("id"@, JsonView::Str(id)).insert(
            "object"@,
            JsonView::Str(object),
        ).insert("deleted"@, JsonView::Bool(true)),
    )
}

/// The body that confirms a deletion.
pub fn deleted_body(id: &str, object: &str) -> (body: Json)
    ensures
        body@ == deletion(id@, object@),
{
    Json::Object(
        JsonObject::new().with("id", Json::text(id)).with("object", Json::text(object)).with(
            "deleted",
            Json::Bool(true),
        ),
    )
}

/// The reply to the deletion of a response. `deleted` says whether there was a
/// record.
pub fn delete_response(id: &str, deleted: Result<bool, String>) -> (reply: Reply)
    ensures
        reply@ == match deleted {
            Ok(true) => success(deletion(id@, "response"@)),
            Ok(false) => failure(404, no_response(id@)),
            Err(error) => failure(500, "failed to delete from the response store: "@ + error@),
        },
{
    match deleted {
        Ok(found) => if found {
            ok_json(deleted_body(id, "response"))
        } else {
            not_found(id)
        },
        Err(error) => error_json(
            500,
            "failed to delete from the response store: ".to_owned().concat(error.as_str()),
        ),
    }
}

/// The identifier of an item as JSON: a text, or `null` where it has none.
pub open spec fn id_or_null(item: Option<JsonView>) -> JsonView {
    match item {
        Some(item) => match text_field(item, "id"@) {
            Some(id) => JsonView::Str(id),
            None => JsonView::Null,
        },
        None => JsonView::Null,
    }
}

/// A list of items, complete on one page.
pub open spec fn item_list(items: Seq<JsonView>) -> JsonView {
    JsonView::Object(
        no_fields().insert("object"@, JsonView::Str("list"@)).insert(
            "data"@,
            JsonView::Array(items),
        ).insert(
            "first_id"@,
            id_or_null(
                if items.len() > 0 {
                    Some(items[0])
                } else {
                    None
                },
            ),
        ).insert(
            "last_id"@,
            id_or_null(
                if items.len() > 0 {
                    Some(items.last())
                } else {
                    None
                },
            ),
        ).insert("has_more"@, JsonView::Bool(false)),
    )
}

fn identifier_of(item: &Json) -> (id: Json)
    ensures
        id@ == id_or_null(Some(item@)),
{
    match item.get_str("id") {
        Some(id) => Json::text(id),
        None => Json::Null,
    }
}

/// A list of items, complete on one page.
pub fn list_body(items: Vec<Json>) -> (body: Json)
    ensures
        body@ == item_list(values_view(items@)),
{
    let size: usize = items.len();
    let ghost views = values_view(items@);
    let first = if size > 0 {
        assert(views[0] == items@[0]@);
        identifier_of(&items[0])
    } else {
        Json::Null
    };
    let last = if size > 0 {
        assert(views.last() == items@[size - 1]@);
        identifier_of(&items[size - 1])
    } else {
        Json::Null
    };
    Json::Object(
        JsonObject::new().with("object", Json::text("list")).with("data", array_of(items)).with(
            "first_id",
            first,
        ).with("last_id", last).with("has_more", Json::Bool(false)),
    )
}

/// The reply to the listing of the input items of a response.
pub fn list_input_items(id: &str, found: Result<Option<StoredResponse>, String>) -> (reply: Reply)
    ensures
        reply@ == match found_view(found) {
            Ok(Some(record)) => success(item_list(record.input_items)),
            Ok(None) => failure(404, no_response(id@)),
            Err(error) => failure(500, store_unreadable(error)),
        },
{
    match found {
        Ok(Some(record)) => ok_json(list_body(record.input_items)),
        Ok(None) => not_found(id),
        Err(error) => error_json(
            500,
            "failed to read the response store: ".to_owned().concat(error.as_str()),
        ),
    }
}

/// A retrieval with an empty query gives back the stored object as it is.
pub proof fn law_plain_retrieval_gives_the_stored_body(id: Seq<char>, record: StoredResponseView)
    ensures
        read_query(Seq::empty()) == Ok::<RetrieveQuery, Seq<char>>(no_query()),
        retrieval_reply(no_query(), id, Ok(Some(record))) == success(record.response),
{
}

/// An accepted query that starts after an event asks for the stream.
pub proof fn law_starting_after_needs_the_stream(query: Seq<char>)
    ensures
        read_query(query) matches Ok(read) ==> read.starting_after is Some ==> read.stream,
{
}

} // verus!
