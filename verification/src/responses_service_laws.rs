//! What holds of the routes: who is let in, what a query asks for, and what is given
//! back of what is stored.

use vstd::prelude::*;

use crate::json::{field, text_field, unsigned, JsonView};
use crate::json_text::json_from_bytes;
use crate::llm::{Generation, LLMErrorView, DEFAULT_TEMPERATURE, DEFAULT_TOP_P};
use crate::records::lemma_record_is_sound;
use crate::responses_background::{
    cancelled_object,
    final_conversation,
    final_object,
    is_final,
    JobOutcomeView,
    JobView,
};
use crate::responses_body_laws::given;
use crate::responses_conversations::{
    added_items,
    conversation_metadata,
    conversation_unwritten,
    conversations_unreadable,
    has_room,
    is_blank_byte,
    item_limit,
    items_body_model,
    missing_reply,
    no_conversation,
    no_item,
    read_conversation_body,
    read_items_body,
};
use crate::responses_create::{head_of, no_json, response_unwritten, store_full, turn_of};
use crate::responses_events::{can_replay, output_items, replayed};
use crate::responses_http::{
    auth_refusal,
    failure,
    fields_of,
    no_response,
    query_field,
    strict_refusal,
    unsupported_field,
    ReplyBodyView,
};
use crate::responses_limits::{creation, expired, kept};
use crate::responses_output_laws::{law_object_shows_its_fields, shows_call, shows_text};
use crate::responses_profile::{sampled, ResponsesApi};
use crate::responses_reasoning::{reasoning_effect, ReasoningEffectView, ResponseReasoningView};
use crate::responses_request_laws::{has_text, lemma_is_there};
use crate::responses_retrieve::{
    deletion,
    item_list,
    no_query,
    query_step,
    read_query,
    retrieval_refusal,
    retrieval_reply,
    store_unreadable,
    with_field,
    RetrieveQuery,
};
use crate::responses_shape::{call_items, message, usage_object, IdSource};
use crate::responses_store::{conversation_object, ConversationView, StoredResponseView};
use crate::responses_tools::{ModelCallView, ModelTurnView};
use crate::seqs::try_fold;
use crate::text::{decimal, first_at, law_pieces_of_two_texts, lemma_first_from, occurs_at};

verus! {

/// A request is let in exactly where no key is set or where it carries the key as a
/// bearer token; otherwise it is answered with 401, before anything else is looked at.
pub proof fn law_only_the_key_lets_in(
    api_key: Seq<char>,
    authorization: Option<Seq<char>>,
    query: Seq<char>,
)
    ensures
        (auth_refusal(api_key, authorization) is None) == (api_key == Seq::<char>::empty()
            || authorization == Some("Bearer "@ + api_key)),
        auth_refusal(api_key, authorization) matches Some(reply) ==> reply.status == 401,
        auth_refusal(api_key, authorization) is Some ==> strict_refusal(
            api_key,
            authorization,
            query,
        ) == auth_refusal(api_key, authorization) && retrieval_refusal(
            api_key,
            authorization,
            query,
        ) == auth_refusal(api_key, authorization),
{
    if api_key.len() == 0 {
        assert(api_key =~= Seq::empty());
    }
}

/// An error is answered with its own status and says its message, as a fault of the
/// server from 500 on and of the request below.
pub proof fn law_error_says_its_message(status: u16, message: Seq<char>)
    requires
        100 <= status <= 999,
    ensures
        ({
            let reply = failure(status, message);
            &&& reply.status == status
            &&& reply.body matches ReplyBodyView::Json(body)
            &&& field(body, "error"@) matches Some(error)
            &&& text_field(error, "message"@) == Some(message)
            &&& text_field(error, "type"@) == Some(
                if status >= 500 {
                    "server_error"@
                } else {
                    "invalid_request_error"@
                },
            )
            &&& field(error, "param"@) == Some(JsonView::Null)
            &&& field(error, "code"@) == Some(JsonView::Null)
        }),
{
    reveal_strlit("message");
    reveal_strlit("type");
    reveal_strlit("param");
    reveal_strlit("code");
    assert("message"@.len() == 7 && "type"@.len() == 4 && "param"@.len() == 5 && "code"@.len() == 4);
    assert("type"@[0] == 't' && "code"@[0] == 'c');
}

/// A route without query fields refuses every field with 400 and an empty query never.
pub proof fn law_strict_route_takes_no_query(
    api_key: Seq<char>,
    authorization: Option<Seq<char>>,
    query: Seq<char>,
)
    requires
        auth_refusal(api_key, authorization) is None,
    ensures
        strict_refusal(api_key, authorization, Seq::empty()) is None,
        query.len() > 0 ==> (strict_refusal(api_key, authorization, query) matches Some(reply)
            && reply.status == 400),
{
    if query.len() > 0 {
        lemma_some_piece(query);
    }
}

proof fn lemma_some_piece(query: Seq<char>)
    ensures
        crate::text::pieces(query, '&').len() > 0,
    decreases query.len(),
{
    if query.len() > 0 {
        lemma_some_piece(query.drop_last());
    }
}

/// A query field is what stands before its first `=` and what stands behind it; without
/// one it is a name alone.
pub proof fn law_query_field_is_name_and_value(name: Seq<char>, value: Seq<char>)
    requires
        !name.contains('='),
    ensures
        query_field(name + "="@ + value) == (name, Some(value)),
        query_field(name) == (name, None::<Seq<char>>),
{
    reveal_strlit("=");
    let piece = name + "="@ + value;
    lemma_first_from(piece, "="@, 0);
    lemma_first_from(name, "="@, 0);
    assert(occurs_at(piece, "="@, name.len() as int)) by {
        assert(piece.subrange(name.len() as int, name.len() as int + 1) =~= "="@);
    }
    let at = first_at(piece, "="@)->0;
    assert(piece[at] == '=') by {
        assert(piece.subrange(at, at + 1)[0] == '=');
    }
    if at < name.len() {
        assert(name[at] == '=');
    }
    assert(at == name.len());
    assert(piece.subrange(0, at) =~= name);
    assert(piece.subrange(at + 1, piece.len() as int) =~= value);
    if let Some(found) = first_at(name, "="@) {
        assert(name.subrange(found, found + 1)[0] == '=');
        assert(name[found] == '=');
    }
}

/// What one more query field does to a retrieval: `stream` is `true` or `false` and
/// nothing else, `starting_after` is a number that fits, and no other field is taken.
/// Each changes what it names and nothing else.
pub proof fn law_query_fields_set_what_they_name(
    query: RetrieveQuery,
    name: Seq<char>,
    value: Option<Seq<char>>,
)
    ensures
        with_field(query, ("stream"@, Some("true"@))) == Ok::<RetrieveQuery, Seq<char>>(
            RetrieveQuery { stream: true, ..query },
        ),
        with_field(query, ("stream"@, Some("false"@))) == Ok::<RetrieveQuery, Seq<char>>(
            RetrieveQuery { stream: false, ..query },
        ),
        value != Some("true"@) && value != Some("false"@) ==> with_field(
            query,
            ("stream"@, value),
        ) is Err,
        name != "stream"@ && name != "starting_after"@ ==> with_field(query, (name, value)) is Err,
        with_field(query, ("starting_after"@, value)) matches Ok(read) ==> read.stream
            == query.stream && read.starting_after is Some && value is Some
            && crate::text::read_unsigned(value->0, u32::MAX as nat) == Some(
            read.starting_after->0 as nat,
        ),
        value matches Some(text) ==> crate::text::read_unsigned(text, u32::MAX as nat) is Some
            ==> with_field(query, ("starting_after"@, value)) is Ok,
        read_query(Seq::empty()) == Ok::<RetrieveQuery, Seq<char>>(
            RetrieveQuery { stream: false, starting_after: None },
        ),
{
    reveal_strlit("stream");
    reveal_strlit("starting_after");
    reveal_strlit("true");
    reveal_strlit("false");
    assert("stream"@.len() == 6 && "starting_after"@.len() == 14);
    assert("true"@.len() == 4 && "false"@.len() == 5);
}

/// A query is read field after field; a field that is refused refuses the query, and
/// starting after an event needs the stream.
pub proof fn law_query_is_read_in_order(query: Seq<char>)
    ensures
        read_query(query) matches Ok(read) ==> {
            &&& try_fold(query_step(), no_query(), fields_of(query)) == Ok::<
                RetrieveQuery,
                Seq<char>,
            >(read)
            &&& read.stream || read.starting_after is None
        },
        try_fold(query_step(), no_query(), fields_of(query)) matches Ok(read) ==> (read.stream
            || read.starting_after is None) ==> read_query(query) is Ok,
        try_fold(query_step(), no_query(), fields_of(query)) is Err ==> read_query(query) is Err,
{
}

/// What a retrieval gives back: the stored response, as it was stored, or its stream
/// from the event it starts after; 404 where there is none and 500 where the store
/// cannot be read or the response cannot be replayed.
pub proof fn law_retrieval_gives_what_is_stored(
    query: RetrieveQuery,
    id: Seq<char>,
    record: StoredResponseView,
    error: Seq<char>,
)
    ensures
        ({
            let reply = retrieval_reply(query, id, Ok(Some(record)));
            &&& !query.stream ==> reply.status == 200 && reply.body == ReplyBodyView::Json(
                record.response,
            )
            &&& query.stream && can_replay(record.response) ==> reply.status == 200 && reply.body
                == ReplyBodyView::Events(replayed(record.response, query.starting_after))
            &&& query.stream && !can_replay(record.response) ==> reply.status == 500
        }),
        retrieval_reply(query, id, Ok(None)).status == 404,
        retrieval_reply(query, id, Err(error)).status == 500,
{
}

/// A list shows all its items, in their order and on one page, and names the first and
/// the last.
pub proof fn law_list_shows_all_items(items: Seq<JsonView>)
    ensures
        ({
            let list = item_list(items);
            &&& text_field(list, "object"@) == Some("list"@)
            &&& field(list, "data"@) == Some(JsonView::Array(items))
            &&& field(list, "has_more"@) == Some(JsonView::Bool(false))
            &&& items.len() > 0 ==> text_field(list, "first_id"@) == text_field(items[0], "id"@)
                && text_field(list, "last_id"@) == text_field(items.last(), "id"@)
            &&& items.len() == 0 ==> field(list, "first_id"@) == Some(JsonView::Null) && field(
                list,
                "last_id"@,
            ) == Some(JsonView::Null)
        }),
{
    reveal_strlit("object");
    reveal_strlit("data");
    reveal_strlit("first_id");
    reveal_strlit("last_id");
    reveal_strlit("has_more");
    assert("object"@.len() == 6 && "data"@.len() == 4 && "first_id"@.len() == 8);
    assert("last_id"@.len() == 7 && "has_more"@.len() == 8);
    assert("first_id"@[0] == 'f' && "has_more"@[0] == 'h');
}

/// A deletion is confirmed with the identifier of what was deleted, and a conversation
/// is shown with its identifier, its time of creation and its metadata.
pub proof fn law_confirmations_name_their_subject(
    id: Seq<char>,
    kind: Seq<char>,
    record: ConversationView,
)
    ensures
        text_field(deletion(id, kind), "id"@) == Some(id),
        text_field(deletion(id, kind), "object"@) == Some(kind),
        field(deletion(id, kind), "deleted"@) == Some(JsonView::Bool(true)),
        text_field(conversation_object(record), "id"@) == Some(record.id),
        text_field(conversation_object(record), "object"@) == Some("conversation"@),
        field(conversation_object(record), "created_at"@) == Some(
            unsigned(record.created_at as nat),
        ),
        field(conversation_object(record), "metadata"@) == Some(record.metadata),
{
    reveal_strlit("id");
    reveal_strlit("object");
    reveal_strlit("deleted");
    reveal_strlit("created_at");
    reveal_strlit("metadata");
    assert("id"@.len() == 2 && "object"@.len() == 6 && "deleted"@.len() == 7);
    assert("created_at"@.len() == 10 && "metadata"@.len() == 8);
}

/// A cancellation changes the status, the output and the usage of a response and
/// nothing else.
pub proof fn law_cancellation_keeps_the_rest(response: JsonView, key: Seq<char>)
    requires
        response is Object,
    ensures
        text_field(cancelled_object(response), "status"@) == Some("cancelled"@),
        field(cancelled_object(response), "output"@) == Some(JsonView::Array(Seq::empty())),
        field(cancelled_object(response), "usage"@) == Some(JsonView::Null),
        key != "status"@ && key != "output"@ && key != "usage"@ ==> field(
            cancelled_object(response),
            key,
        ) == field(response, key),
{
    reveal_strlit("status");
    reveal_strlit("output");
    reveal_strlit("usage");
    assert("status"@.len() == 6 && "output"@.len() == 6 && "usage"@.len() == 5);
    assert("status"@[0] == 's' && "output"@[0] == 'o');
}

/// The statuses that a cancellation leaves alone are the four final ones.
pub proof fn law_final_statuses(status: Seq<char>)
    ensures
        is_final(status) ==> status == "completed"@ || status == "failed"@ || status
            == "cancelled"@ || status == "incomplete"@,
        is_final("completed"@) && is_final("failed"@) && is_final("cancelled"@) && is_final(
            "incomplete"@,
        ),
        !is_final("queued"@) && !is_final("in_progress"@) && !is_final(Seq::empty()),
{
    reveal_strlit("completed");
    reveal_strlit("failed");
    reveal_strlit("cancelled");
    reveal_strlit("incomplete");
    reveal_strlit("queued");
    reveal_strlit("in_progress");
    assert("queued"@.len() == 6 && "failed"@.len() == 6 && "queued"@[0] == 'q' && "failed"@[0]
        == 'f');
    assert("in_progress"@.len() == 11 && "completed"@.len() == 9 && "cancelled"@.len() == 9
        && "incomplete"@.len() == 10);
}

proof fn lemma_job_items(ids: IdSource, turn: ModelTurnView)
    ensures
        turn matches ModelTurnView::Message(text) ==> {
            let items = output_items(ids, crate::responses_create::turn_output(turn));
            items.len() == 1 && shows_text(items[0], text)
        },
        turn matches ModelTurnView::Calls(calls) ==> {
            let items = output_items(ids, crate::responses_create::turn_output(turn));
            items.len() == calls.len() && forall|i: int|
                0 <= i < calls.len() ==> shows_call(#[trigger] items[i], calls[i])
        },
{
    match turn {
        ModelTurnView::Message(text) => {
            crate::responses_output_laws::lemma_shown_items(
                ids.id("msg_"@, 0),
                Seq::empty(),
                text,
                ModelCallView { name: Seq::empty(), arguments: Seq::empty() },
            );
        },
        ModelTurnView::Calls(calls) => {
            let items = output_items(ids, crate::responses_create::turn_output(turn));
            assert forall|i: int| 0 <= i < calls.len() implies shows_call(
                #[trigger] items[i],
                calls[i],
            ) by {
                assert(items[i] == call_items(ids, calls)[i]);
                crate::responses_output_laws::lemma_shown_items(
                    ids.id("fc_"@, (2 * i) as nat),
                    ids.id("call_"@, (2 * i + 1) as nat),
                    Seq::empty(),
                    calls[i],
                );
            }
        },
    }
}

/// A job in the background ends with the response it was queued as: the same identifier,
/// time, model and metadata, whatever its status. A completed one shows the text or the
/// calls that were generated and their usage, and its conversation grows by what the
/// request put in and what the response puts out; any other shows no output and leaves
/// the conversation as it is.
pub proof fn law_job_shows_what_was_generated(
    job: JobView,
    ids: IdSource,
    outcome: JobOutcomeView,
    cancelled: bool,
)
    ensures
        ({
            let shown = final_object(job, ids, outcome, cancelled);
            let turn = turn_of(job.plan.tools, job.plan.json_required, outcome->Generated_0);
            let done = !cancelled && outcome is Generated && turn is Ok;
            &&& text_field(shown, "id"@) == Some(job.id)
            &&& text_field(shown, "model"@) == Some(job.plan.model)
            &&& field(shown, "created_at"@) == Some(unsigned(job.created_at as nat))
            &&& field(shown, "metadata"@) == Some(
                match job.plan.metadata {
                    Some(metadata) => metadata,
                    None => JsonView::Null,
                },
            )
            &&& text_field(shown, "status"@) == Some(
                if done {
                    "completed"@
                } else if (outcome is Generated && cancelled) || (outcome matches JobOutcomeView::Failed(
                    failure,
                ) && failure.cause == Some(LLMErrorView::Cancelled)) {
                    "cancelled"@
                } else {
                    "failed"@
                },
            )
            &&& field(shown, "output"@) matches Some(JsonView::Array(output))
            &&& !done ==> {
                &&& output.len() == 0
                &&& field(shown, "usage"@) == Some(JsonView::Null)
                &&& final_conversation(job, ids, outcome, cancelled) is None
            }
            &&& done ==> {
                &&& field(shown, "usage"@) == Some(usage_object(outcome->Generated_1))
                &&& match turn->Ok_0 {
                    ModelTurnView::Message(text) => output.len() == 1 && shows_text(
                        output[0],
                        text,
                    ),
                    ModelTurnView::Calls(calls) => output.len() == calls.len() && forall|i: int|
                        0 <= i < calls.len() ==> shows_call(#[trigger] output[i], calls[i]),
                }
                &&& final_conversation(job, ids, outcome, cancelled) == match job.plan.conversation {
                    Some((name, before)) => Some(
                        (
                            name,
                            ConversationView {
                                items: before.items + job.plan.input_items + output,
                                ..before
                            },
                        ),
                    ),
                    None => None,
                }
            }
        }),
{
    let head = head_of(job.plan, job.id, job.created_at);
    let none = JsonView::Array(Seq::empty());
    law_object_shows_its_fields(head, "cancelled"@, none, JsonView::Null);
    law_object_shows_its_fields(head, "failed"@, none, JsonView::Null);
    if let JobOutcomeView::Generated(text, usage) = outcome {
        if let Ok(turn) = turn_of(job.plan.tools, job.plan.json_required, text) {
            lemma_job_items(ids, turn);
            law_object_shows_its_fields(
                head,
                "completed"@,
                JsonView::Array(output_items(ids, crate::responses_create::turn_output(turn))),
                usage_object(usage),
            );
        }
    }
}

/// A record has expired exactly where a retention time is set and more time than that
/// has gone by since it was made. The time is the one that the record shows; one that
/// shows none counts as made at zero.
pub proof fn law_expiry_is_exact(
    created_at: u64,
    retention_secs: u64,
    now: u64,
    response: JsonView,
    n: u64,
)
    ensures
        expired(created_at, retention_secs, now) == (retention_secs > 0 && created_at
            + retention_secs < now),
        field(response, "created_at"@) == Some(unsigned(n as nat)) ==> creation(response) == n,
        field(response, "created_at"@) is None ==> creation(response) == 0,
{
}

/// The count of the records that are kept is that of the ones before and of each one
/// behind that has not expired.
pub proof fn law_kept_records_are_counted(
    records: Seq<StoredResponseView>,
    record: StoredResponseView,
    retention_secs: u64,
    now: u64,
)
    ensures
        kept(Seq::empty(), retention_secs, now) == 0,
        kept(records.push(record), retention_secs, now) == kept(records, retention_secs, now) + if
        retention_secs > 0 && creation(record.response) + retention_secs < now {
            0int
        } else {
            1int
        },
{
    assert(records.push(record).drop_last() =~= records);
}

/// What `reasoning` asks for: nothing without the object, thinking with it, also without
/// an effort; an effort is one of the seven words, turns thinking off only where it is
/// `none`, and reaches the template as it is, but for what `deepseek` maps. Any other
/// member is refused.
pub proof fn law_reasoning_is_taken_as_asked(
    reasoning: ResponseReasoningView,
    profile: ResponsesApi,
)
    ensures
        reasoning_effect(None, profile) == Ok::<ReasoningEffectView, Seq<char>>(
            ReasoningEffectView { thinking: false, effort: None },
        ),
        ({
            let effect = reasoning_effect(Some(reasoning), profile);
            let plain = reasoning.context is None && reasoning.generate_summary is None
                && reasoning.mode is None && reasoning.summary is None;
            let known = |word: Seq<char>|
                word == "none"@ || word == "minimal"@ || word == "low"@ || word == "medium"@ || word
                    == "high"@ || word == "xhigh"@ || word == "max"@;
            &&& (effect is Ok) == (plain && (reasoning.effort matches Some(value) ==> (value matches
                JsonView::Str(word) && known(word))))
            &&& reasoning.effort is None && plain ==> effect == Ok::<
                ReasoningEffectView,
                Seq<char>,
            >(ReasoningEffectView { thinking: true, effort: None })
            &&& effect is Ok && reasoning.effort is Some ==> {
                let word = reasoning.effort->0->Str_0;
                &&& effect->Ok_0.thinking == (word != "none"@)
                &&& effect->Ok_0.effort is Some
                &&& !(profile is Deepseek) ==> effect->Ok_0.effort == Some(word)
                &&& profile is Deepseek ==> effect->Ok_0.effort == Some(
                    if word == "minimal"@ {
                        "low"@
                    } else if word == "medium"@ || word == "xhigh"@ {
                        "high"@
                    } else {
                        word
                    },
                )
            }
        }),
{
}

/// Under `deepseek` and while thinking the sampler is at least as wide as its default
/// and the temperature is the default; the limit of the output stays. `top_p` stays
/// where it is a number from the default on.
pub proof fn law_thinking_deepseek_widens_the_sampler(generation: Generation)
    ensures
        ({
            let values = sampled(ResponsesApi::Deepseek, true, generation);
            &&& values.temperature == DEFAULT_TEMPERATURE
            &&& values.max_output_tokens == generation.max_output_tokens
            &&& DEFAULT_TOP_P <= values.top_p <= 0x7FF0_0000_0000_0000
            &&& DEFAULT_TOP_P <= generation.top_p <= 0x7FF0_0000_0000_0000 ==> values.top_p
                == generation.top_p
            &&& generation.top_p < DEFAULT_TOP_P || generation.top_p > 0x7FF0_0000_0000_0000
                ==> values.top_p == DEFAULT_TOP_P
        }),
        sampled(ResponsesApi::Deepseek, false, generation) == generation,
{
}

/// A conversation takes items as long as the limit is not passed; the limit zero is
/// none.
pub proof fn law_room_is_exact(held: nat, more: nat, limit: nat)
    ensures
        has_room(held, more, 0),
        limit > 0 ==> has_room(held, more, limit) == (held + more <= limit),
        has_room(held, more, limit) && more > 0 ==> has_room(held, (more - 1) as nat, limit),
{
}

/// A body of white space stands for nothing: no metadata and no items. Any other body
/// that cannot be read is refused with 400.
pub proof fn law_blank_body_asks_for_nothing(
    body: Seq<u8>,
    direct: Result<(), Seq<char>>,
    id: Seq<char>,
    error: Seq<char>,
)
    ensures
        (forall|i: int|
            0 <= i < body.len() ==> (#[trigger] body[i] == 32 || body[i] == 9 || body[i] == 10
                || body[i] == 12 || body[i] == 13)) ==> conversation_metadata(body, direct) == Ok::<
            Option<JsonView>,
            (u16, Seq<char>),
        >(None) && added_items(body, direct) == Ok::<Seq<JsonView>, (u16, Seq<char>)>(
            Seq::empty(),
        ),
        conversation_metadata(body, direct) matches Err(refused) ==> refused.0 == 400,
        added_items(body, direct) matches Err(refused) ==> refused.0 == 400,
        missing_reply(id, Ok(None)).status == 404,
        missing_reply(id, Err(error)).status == 500,
{
}

/// A query is all its fields, in their order: the fields of two queries with an `&`
/// between them are those of the first and then those of the second, and a query
/// without an `&` is one field.
pub proof fn law_query_is_all_its_fields(first: Seq<char>, second: Seq<char>)
    requires
        first.len() > 0,
        second.len() > 0,
    ensures
        fields_of(first + seq!['&'] + second) == fields_of(first) + fields_of(second),
        !first.contains('&') ==> fields_of(first) == seq![query_field(first)],
        fields_of(Seq::empty()) == Seq::<(Seq<char>, Option<Seq<char>>)>::empty(),
{
    law_pieces_of_two_texts(first, second, '&');
    assert(fields_of(first + seq!['&'] + second) =~= fields_of(first) + fields_of(second));
    if !first.contains('&') {
        assert(fields_of(first) =~= seq![query_field(first)]);
    }
}

/// A refusal names what it is about: the identifier of what was not found, the limit
/// that was reached, and the field that the route does not take.
pub proof fn law_refusals_name_their_subject(
    id: Seq<char>,
    name: Seq<char>,
    limit: nat,
    error: Seq<char>,
)
    ensures
        has_text(no_response(id), id),
        has_text(no_conversation(id), id),
        has_text(no_item(id), id),
        has_text(store_full(limit), decimal(limit)),
        has_text(item_limit(limit), decimal(limit)),
        has_text(unsupported_field(name), name),
        has_text(store_unreadable(error), error),
        has_text(conversations_unreadable(error), error),
        has_text(response_unwritten(error), error),
        has_text(conversation_unwritten(error), error),
        has_text(no_json(error), error),
{
    let nothing = Seq::<char>::empty();
    lemma_is_there("No response found with id '"@, id, "'"@);
    lemma_is_there("No conversation found with id '"@, id, "'"@);
    lemma_is_there("No conversation item found with id '"@, id, "'"@);
    lemma_is_there("the response storage limit of "@, decimal(limit), " is reached"@);
    lemma_is_there("the conversation item limit of "@, decimal(limit), " would be exceeded"@);
    lemma_is_there("unsupported query field `"@, name, "` on this route"@);
    lemma_is_there("failed to read the response store: "@, error, nothing);
    lemma_is_there("failed to read the conversation store: "@, error, nothing);
    lemma_is_there("failed to store the response: "@, error, nothing);
    lemma_is_there("failed to store the conversation: "@, error, nothing);
    lemma_is_there("the model did not produce valid JSON for `text.format`: "@, error, nothing);
    assert(store_unreadable(error) + nothing =~= store_unreadable(error));
    assert(conversations_unreadable(error) + nothing =~= conversations_unreadable(error));
    assert(response_unwritten(error) + nothing =~= response_unwritten(error));
    assert(conversation_unwritten(error) + nothing =~= conversation_unwritten(error));
    assert(no_json(error) + nothing =~= no_json(error));
}

/// The body that opens a conversation gives its metadata, and the body that adds items
/// gives them all, in their order.
pub proof fn law_conversation_bodies_hold_what_is_given(object: Map<Seq<char>, JsonView>)
    ensures
        read_conversation_body(JsonView::Object(object)) matches Ok(metadata) ==> metadata == given(
            object,
            "metadata"@,
        ),
        read_items_body(JsonView::Object(object)) matches Ok(items) ==> match given(
            object,
            "items"@,
        ) {
            Some(list) => list == JsonView::Array(items),
            None => items.len() == 0,
        },
        read_items_body(JsonView::Array(Seq::empty())) == Ok::<Seq<JsonView>, Seq<char>>(
            Seq::empty(),
        ),
{
    let value = JsonView::Object(object);
    if read_items_body(value) is Ok {
        let model = items_body_model();
        lemma_record_is_sound(model, value);
        assert(model.fields[0] == "items"@);
        if object.contains_key("items"@) {
            assert((model.fault)("items"@, object["items"@]) is None);
        }
    }
    reveal_with_fuel(crate::records::place_fault, 2);
}

/// A non-blank body is read as JSON: what it says is taken, and a body that is no JSON
/// or holds a fault is refused with that fault.
pub proof fn law_bodies_are_read(body: Seq<u8>, fault: Seq<char>)
    requires
        exists|i: int| 0 <= i < body.len() && #[trigger] body[i] > 32,
    ensures
        ({
            let metadata = conversation_metadata(body, Ok(()));
            let items = added_items(body, Ok(()));
            match json_from_bytes(body) {
                Ok(value) => {
                    &&& (metadata is Ok) == (read_conversation_body(value) is Ok)
                    &&& metadata is Ok ==> metadata->Ok_0 == read_conversation_body(value)->Ok_0
                    &&& (items is Ok) == (read_items_body(value) is Ok)
                    &&& items is Ok ==> items->Ok_0 == read_items_body(value)->Ok_0
                },
                Err(_) => metadata is Err && items is Err,
            }
        }),
        conversation_metadata(body, Err(fault)) is Err,
        added_items(body, Err(fault)) is Err,
{
    let i = choose|i: int| 0 <= i < body.len() && #[trigger] body[i] > 32;
    assert(!is_blank_byte(body[i]));
}

} // verus!
