//! Replies, the credential check and the query of a request.

use vstd::prelude::*;

use crate::json::{no_fields, Json, JsonObject, JsonView};
use crate::text::{find, first_at, pieces, same_text, slice, split, texts};

verus! {

/// The body of a reply.
#[derive(Debug)]
pub enum ReplyBody {
    Json(Json),
    /// The text of an event stream.
    Events(String),
}

/// The meaning of a [`ReplyBody`].
pub enum ReplyBodyView {
    Json(JsonView),
    Events(Seq<char>),
}

/// A reply: its status and its body.
#[derive(Debug)]
pub struct Reply {
    pub status: u16,
    pub body: ReplyBody,
}

/// The meaning of a [`Reply`].
pub struct ReplyView {
    pub status: u16,
    pub body: ReplyBodyView,
}

impl View for Reply {
    type V = ReplyView;

    open spec fn view(&self) -> ReplyView {
        ReplyView {
            status: self.status,
            body: match self.body {
                ReplyBody::Json(value) => ReplyBodyView::Json(value@),
                ReplyBody::Events(text) => ReplyBodyView::Events(text@),
            },
        }
    }
}

/// A successful reply with a JSON body.
pub open spec fn success(value: JsonView) -> ReplyView {
    ReplyView { status: 200, body: ReplyBodyView::Json(value) }
}

/// A successful reply with an event stream.
pub open spec fn streamed(text: Seq<char>) -> ReplyView {
    ReplyView { status: 200, body: ReplyBodyView::Events(text) }
}

/// The error body: `server_error` for a status from 500 on, otherwise
/// `invalid_request_error`.
pub open spec fn error_body(status: u16, message: Seq<char>) -> JsonView {
    JsonView::Object(
        no_fields().insert(
            "error"@,
            JsonView::Object(
                no_fields().insert("message"@, JsonView::Str(message)).insert(
                    "type"@,
                    JsonView::Str(
                        if status >= 500 {
                            "server_error"@
                        } else {
                            "invalid_request_error"@
                        },
                    ),
                ).insert("param"@, JsonView::Null).insert("code"@, JsonView::Null),
            ),
        ),
    )
}

/// The error reply. A status that is none becomes 500.
pub open spec fn failure(status: u16, message: Seq<char>) -> ReplyView {
    ReplyView {
        status: if 100 <= status <= 999 {
            status
        } else {
            500
        },
        body: ReplyBodyView::Json(error_body(status, message)),
    }
}

/// A successful reply with a JSON body.
pub fn ok_json(value: Json) -> (reply: Reply)
    ensures
        reply@ == success(value@),
{
    Reply { status: 200, body: ReplyBody::Json(value) }
}

/// A successful reply with an event stream.
pub fn sse_response(body: String) -> (reply: Reply)
    ensures
        reply@ == streamed(body@),
{
    Reply { status: 200, body: ReplyBody::Events(body) }
}

/// The error reply with the nested error body.
pub fn error_json(status: u16, message: String) -> (reply: Reply)
    ensures
        reply@ == failure(status, message@),
{
    let kind = if status >= 500 {
        "server_error"
    } else {
        "invalid_request_error"
    };
    let error = JsonObject::new().with("message", Json::Str(message)).with(
        "type",
        Json::text(kind),
    ).with("param", Json::Null).with("code", Json::Null);
    let status: u16 = if 100 <= status && status <= 999 {
        status
    } else {
        500
    };
    Reply {
        status,
        body: ReplyBody::Json(Json::Object(JsonObject::new().with("error", Json::Object(error)))),
    }
}

/// The wording for an unknown response.
pub open spec fn no_response(id: Seq<char>) -> Seq<char> {
    "No response found with id '"@ + id + "'"@
}

/// The reply for an unknown or deleted response.
pub fn not_found(id: &str) -> (reply: Reply)
    ensures
        reply@ == failure(404, no_response(id@)),
{
    error_json(404, "No response found with id '".to_owned().concat(id).concat("'"))
}

/// The reply for a body that could not be received. `status` and `message` are
/// those of the failure.
pub fn extractor_error(status: u16, message: &str) -> (reply: Reply)
    ensures
        reply@ == failure(status, "invalid request body: "@ + message@),
{
    error_json(status, "invalid request body: ".to_owned().concat(message))
}

/// Why a credential is refused. Without a configured key none is asked for.
pub open spec fn auth_fault(api_key: Seq<char>, authorization: Option<Seq<char>>) -> Option<
    Seq<char>,
> {
    if api_key.len() == 0 {
        None
    } else {
        match authorization {
            Some(value) => if value == "Bearer "@ + api_key {
                None
            } else {
                Some("incorrect API key provided"@)
            },
            None => Some("missing bearer token"@),
        }
    }
}

/// Checks the bearer credential.
pub fn check_auth(api_key: &str, authorization: Option<&str>) -> (checked: Result<(), String>)
    ensures
        match checked {
            Ok(_) => auth_fault(api_key@, authorization.deep_view()) is None,
            Err(message) => auth_fault(api_key@, authorization.deep_view()) == Some(message@),
        },
{
    if api_key.is_empty() {
        return Ok(());
    }
    match authorization {
        Some(value) => {
            let expected = "Bearer ".to_owned().concat(api_key);
            if same_text(value, expected.as_str()) {
                Ok(())
            } else {
                Err("incorrect API key provided".to_owned())
            }
        },
        None => Err("missing bearer token".to_owned()),
    }
}

/// A query field: its name and, behind the first `=`, its value.
pub open spec fn query_field(piece: Seq<char>) -> (Seq<char>, Option<Seq<char>>) {
    match first_at(piece, "="@) {
        Some(at) => (
            piece.subrange(0, at),
            Some(piece.subrange(at + 1, piece.len() as int)),
        ),
        None => (piece, None),
    }
}

/// The fields of a query, in their order.
pub open spec fn fields_of(query: Seq<char>) -> Seq<(Seq<char>, Option<Seq<char>>)> {
    if query.len() == 0 {
        Seq::empty()
    } else {
        pieces(query, '&').map_values(|piece: Seq<char>| query_field(piece))
    }
}

/// The views of query fields.
pub open spec fn query_view(fields: Seq<(String, Option<String>)>) -> Seq<
    (Seq<char>, Option<Seq<char>>),
> {
    Seq::new(fields.len(), |i: int| (fields[i].0@, fields[i].1.deep_view()))
}

fn split_field(piece: &str) -> (field: (String, Option<String>))
    ensures
        (field.0@, field.1.deep_view()) == query_field(piece@),
{
    proof {
        reveal_strlit("=");
        assert("="@.len() == 1);
    }
    match find(piece, "=") {
        Some(at) => {
            let total: usize = piece.unicode_len();
            (slice(piece, 0, at), Some(slice(piece, at + 1, total)))
        },
        None => (piece.to_owned(), None),
    }
}

/// The fields of a query, in their order. An empty query has none.
pub fn query_fields(query: &str) -> (fields: Vec<(String, Option<String>)>)
    ensures
        query_view(fields@) == fields_of(query@),
{
    let mut fields: Vec<(String, Option<String>)> = Vec::new();
    if query.is_empty() {
        assert(query_view(fields@) =~= Seq::empty());
        return fields;
    }
    let parts = split(query, '&');
    let ghost views = texts(parts@);
    let size: usize = parts.len();
    for i in 0..size
        invariant
            size == parts@.len(),
            views == texts(parts@),
            fields@.len() == i,
            forall|j: int|
                0 <= j < i ==> ((#[trigger] fields@[j]).0@, fields@[j].1.deep_view())
                    == query_field(views[j]),
    {
        fields.push(split_field(parts[i].as_str()));
    }
    assert(query_view(fields@) =~= fields_of(query@));
    fields
}

/// The name of the first field of a query.
pub fn first_query_field(query: &str) -> (name: Option<String>)
    ensures
        name.deep_view() == if fields_of(query@).len() > 0 {
            Some(fields_of(query@)[0].0)
        } else {
            None
        },
{
    let mut fields = query_fields(query);
    assert(query_view(fields@).len() == fields@.len());
    if fields.len() == 0 {
        return None;
    }
    assert(query_view(fields@)[0].0 == fields@[0].0@);
    Some(fields.remove(0).0)
}

/// The refusal of a request whose credential is refused.
pub open spec fn auth_refusal(api_key: Seq<char>, authorization: Option<Seq<char>>) -> Option<
    ReplyView,
> {
    match auth_fault(api_key, authorization) {
        Some(message) => Some(failure(401, message)),
        None => None,
    }
}

/// The refusal of a request on a route without query fields.
pub open spec fn strict_refusal(
    api_key: Seq<char>,
    authorization: Option<Seq<char>>,
    query: Seq<char>,
) -> Option<ReplyView> {
    match auth_refusal(api_key, authorization) {
        Some(reply) => Some(reply),
        None => if fields_of(query).len() > 0 {
            Some(failure(400, unsupported_field(fields_of(query)[0].0)))
        } else {
            None
        },
    }
}

/// The wording for a query field that a route does not have.
pub open spec fn unsupported_field(name: Seq<char>) -> Seq<char> {
    "unsupported query field `"@ + name + "` on this route"@
}

/// The view of an optional reply.
pub open spec fn option_reply(reply: Option<Reply>) -> Option<ReplyView> {
    match reply {
        Some(reply) => Some(reply@),
        None => None,
    }
}

/// Refuses a request whose credential is refused.
pub fn auth_guard(api_key: &str, authorization: Option<&str>) -> (refusal: Option<Reply>)
    ensures
        option_reply(refusal) == auth_refusal(api_key@, authorization.deep_view()),
{
    match check_auth(api_key, authorization) {
        Ok(_) => None,
        Err(message) => Some(error_json(401, message)),
    }
}

/// Refuses a request whose credential is refused, or that has a query field.
pub fn strict_guard(api_key: &str, authorization: Option<&str>, query: &str) -> (refusal: Option<
    Reply,
>)
    ensures
        option_reply(refusal) == strict_refusal(api_key@, authorization.deep_view(), query@),
{
    if let Some(reply) = auth_guard(api_key, authorization) {
        return Some(reply);
    }
    match first_query_field(query) {
        Some(name) => Some(
            error_json(
                400,
                "unsupported query field `".to_owned().concat(name.as_str()).concat(
                    "` on this route",
                ),
            ),
        ),
        None => None,
    }
}

/// An error reply is never a success.
pub proof fn law_failure_is_no_success(status: u16, message: Seq<char>, value: JsonView)
    requires
        status != 200,
    ensures
        failure(status, message).status != 200,
        failure(status, message) != success(value),
{
}

} // verus!
