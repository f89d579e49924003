//! The identifiers, the output items and the object of a response.

use vstd::prelude::*;

use crate::json::{
    no_fields,
    number_view,
    unsigned,
    values_view,
    Json,
    JsonObject,
    JsonView,
    NumberView,
};
use crate::llm::TokenUsage;
use crate::responses_tools::{calls_view, ModelCall, ModelCallView, ToolEcho, ToolEchoView};
use crate::text::{
    hexadecimal,
    hexadecimal_text,
    lemma_hexadecimal,
    lemma_hexadecimal_is_injective,
    lemma_longer_hexadecimal,
};

verus! {

/// Where identifiers come from: the time of the request in nanoseconds and the
/// number of identifiers given out so far.
#[derive(Debug, Clone, Copy, PartialEq, Eq, Structural)]
pub struct IdSource {
    pub nanos: u128,
    pub count: u64,
}

impl IdSource {
    /// The source after `taken` identifiers.
    pub open spec fn after(self, taken: nat) -> IdSource {
        IdSource {
            nanos: self.nanos,
            count: ((self.count + taken) % 0x1_0000_0000_0000_0000) as u64,
        }
    }

    /// The identifier that comes after `taken` others.
    pub open spec fn id(self, prefix: Seq<char>, taken: nat) -> Seq<char> {
        prefix + hexadecimal(self.nanos as nat) + hexadecimal(self.after(taken).count as nat)
    }

    /// Takes the next identifier. The count starts again at zero after its
    /// largest value.
    pub fn new_id(&mut self, prefix: &str) -> (id: String)
        ensures
            id@ == old(self).id(prefix@, 0),
            *final(self) == old(self).after(1),
    {
        let id = prefix.to_owned().concat(hexadecimal_text(self.nanos).as_str()).concat(
            hexadecimal_text(self.count as u128).as_str(),
        );
        self.count = self.count.wrapping_add(1);
        id
    }
}

/// Taking identifiers in two rounds is taking them in one.
pub proof fn lemma_after(ids: IdSource, first: nat, second: nat)
    ensures
        ids.after(first).after(second) == ids.after(first + second),
        ids.after(0) == ids,
{
    let size: int = 0x1_0000_0000_0000_0000;
    let start = ids.count as int;
    assert(((start + first) % size + second) % size == (start + first + second) % size)
        by (nonlinear_arith)
        requires
            size == 0x1_0000_0000_0000_0000int,
            start >= 0,
            first >= 0,
            second >= 0,
    {
        vstd::arithmetic::div_mod::lemma_add_mod_noop(start + first, second as int, size);
        vstd::arithmetic::div_mod::lemma_mod_twice(start + first, size);
        vstd::arithmetic::div_mod::lemma_add_mod_noop((start + first) % size, second as int, size);
    }
    assert(start % size == start) by {
        vstd::arithmetic::div_mod::lemma_small_mod(ids.count as nat, size as nat);
    }
    assert(0 <= (start + first) % size < size) by {
        vstd::arithmetic::div_mod::lemma_mod_bound(start + first, size);
    }
}

/// The digits by which one time goes on where the other ends are the ones that the
/// other count begins with: read without a break, both give the same digits.
pub open spec fn run_together(short: IdSource, long: IdSource) -> bool {
    let time = hexadecimal(short.nanos as nat);
    let longer = hexadecimal(long.nanos as nat);
    let count = hexadecimal(short.count as nat);
    &&& time.len() < longer.len()
    &&& longer.take(time.len() as int) == time
    &&& count == longer.skip(time.len() as int) + hexadecimal(long.count as nat)
}

proof fn lemma_run_together(prefix: Seq<char>, short: IdSource, long: IdSource)
    requires
        hexadecimal(short.nanos as nat).len() < hexadecimal(long.nanos as nat).len(),
    ensures
        (short.id(prefix, 0) == long.id(prefix, 0)) == run_together(short, long),
{
    lemma_after(short, 0, 0);
    lemma_after(long, 0, 0);
    let one = short.id(prefix, 0);
    let two = long.id(prefix, 0);
    let time = hexadecimal(short.nanos as nat);
    let longer = hexadecimal(long.nanos as nat);
    let middle = longer.skip(time.len() as int);
    let start = prefix.len() as int;
    let end = start + time.len();
    if one == two {
        assert(one.subrange(start, end) =~= time);
        assert(two.subrange(start, end) =~= longer.take(time.len() as int));
        assert(one.skip(end) =~= hexadecimal(short.count as nat));
        assert(two.skip(end) =~= middle + hexadecimal(long.count as nat));
    }
    if run_together(short, long) {
        assert(longer =~= time + middle);
        assert(one =~= two);
    }
}

/// Two identifiers of one prefix differ unless they were made at the same time with
/// the same count, or the digits of time and count run together. Times with equally
/// many digits do not.
pub proof fn law_identifiers_differ(prefix: Seq<char>, first: IdSource, second: IdSource)
    ensures
        (first.id(prefix, 0) == second.id(prefix, 0)) == (first == second || run_together(
            first,
            second,
        ) || run_together(second, first)),
{
    lemma_after(first, 0, 0);
    lemma_after(second, 0, 0);
    let one = first.id(prefix, 0);
    let two = second.id(prefix, 0);
    let time = hexadecimal(first.nanos as nat);
    if time.len() < hexadecimal(second.nanos as nat).len() {
        lemma_run_together(prefix, first, second);
    } else if hexadecimal(second.nanos as nat).len() < time.len() {
        lemma_run_together(prefix, second, first);
    } else if one == two {
        let start = prefix.len() as int;
        let end = start + time.len();
        assert(one.subrange(start, end) =~= time);
        assert(two.subrange(start, end) =~= hexadecimal(second.nanos as nat));
        lemma_hexadecimal_is_injective(first.nanos as nat, second.nanos as nat);
        assert(one.skip(end) =~= hexadecimal(first.count as nat));
        assert(two.skip(end) =~= hexadecimal(second.count as nat));
        lemma_hexadecimal_is_injective(first.count as nat, second.count as nat);
    }
}

/// The time of a clock has equally many digits as that of another, or neither is
/// sixteen times the other.
pub open spec fn like_times(first: u128, second: u128) -> bool {
    ||| hexadecimal(first as nat).len() == hexadecimal(second as nat).len()
    ||| first < 16 * second && second < 16 * first
}

proof fn lemma_like_times(first: IdSource, second: IdSource)
    requires
        like_times(first.nanos, second.nanos),
    ensures
        !run_together(first, second),
{
    if run_together(first, second) {
        lemma_longer_hexadecimal(first.nanos as nat, second.nanos as nat);
    }
}

/// Prefixes that keep identifiers apart: they are the same, or each ends in an
/// underscore, which is no digit.
pub open spec fn like_prefixes(first: Seq<char>, second: Seq<char>) -> bool {
    ||| first == second
    ||| first.len() > 0 && first.last() == '_' && second.len() > 0 && second.last() == '_'
}

proof fn lemma_prefixes(first: IdSource, one: Seq<char>, second: IdSource, two: Seq<char>)
    requires
        like_prefixes(one, two),
        one.len() <= two.len(),
        first.id(one, 0) == second.id(two, 0),
    ensures
        one == two,
{
    let id = first.id(one, 0);
    if one.len() < two.len() {
        lemma_after(first, 0, 0);
        let time = hexadecimal(first.nanos as nat);
        let count = hexadecimal(first.count as nat);
        lemma_hexadecimal(first.nanos as nat);
        lemma_hexadecimal(first.count as nat);
        let place = two.len() - 1;
        assert(place < second.id(two, 0).len());
        assert(second.id(two, 0)[place] == two[place]);
        assert(id =~= one + time + count);
        let offset = place - one.len();
        if offset < time.len() {
            assert(id[place] == time[offset]);
        } else {
            assert(id[place] == count[offset - time.len()]);
        }
    } else {
        assert(id.take(one.len() as int) =~= one);
        assert(second.id(two, 0).take(two.len() as int) =~= two);
    }
}

/// The identifiers of a run: each at its own time, the counts in turn.
pub open spec fn run_ids(
    start: u64,
    prefixes: Seq<Seq<char>>,
    times: Seq<u128>,
) -> Seq<Seq<char>> {
    Seq::new(
        prefixes.len(),
        |i: int| (IdSource { nanos: times[i], count: start }).id(prefixes[i], i as nat),
    )
}

proof fn lemma_counts_in_turn(start: u64, first: nat, second: nat)
    requires
        first < second < 0x1_0000_0000_0000_0000,
    ensures
        (start + first) % 0x1_0000_0000_0000_0000 != (start + second) % 0x1_0000_0000_0000_0000,
{
    let size: int = 0x1_0000_0000_0000_0000;
    let one = start + first;
    let two = start + second;
    if one % size == two % size {
        vstd::arithmetic::div_mod::lemma_fundamental_div_mod(one, size);
        vstd::arithmetic::div_mod::lemma_fundamental_div_mod(two, size);
        let turns = two / size - one / size;
        vstd::arithmetic::mul::lemma_mul_is_distributive_sub(size, two / size, one / size);
        assert(turns <= 0 || size * turns >= size) by (nonlinear_arith)
            requires
                size > 0,
        ;
        assert(turns > 0 || size * turns <= 0) by (nonlinear_arith)
            requires
                size > 0,
        ;
    }
}

/// All the identifiers of a run differ: as many as there are counts, of one prefix or
/// of prefixes that end in an underscore, at any times of equally many digits, and
/// also at others of which none is sixteen times another. (The nanoseconds since the
/// epoch have had sixteen digits since 2006 and will have them until 2554.)
pub proof fn law_run_identifiers_differ(
    start: u64,
    prefixes: Seq<Seq<char>>,
    times: Seq<u128>,
)
    requires
        prefixes.len() == times.len() <= 0x1_0000_0000_0000_0000,
        forall|i: int, j: int|
            0 <= i < j < prefixes.len() ==> like_prefixes(
                #[trigger] prefixes[i],
                #[trigger] prefixes[j],
            ),
        forall|i: int, j: int|
            0 <= i < j < times.len() ==> like_times(#[trigger] times[i], #[trigger] times[j]),
    ensures
        run_ids(start, prefixes, times).no_duplicates(),
{
    let ids = run_ids(start, prefixes, times);
    assert forall|i: int, j: int| 0 <= i < j < ids.len() implies #[trigger] ids[i]
        != #[trigger] ids[j] by {
        let first = (IdSource { nanos: times[i], count: start }).after(i as nat);
        let second = (IdSource { nanos: times[j], count: start }).after(j as nat);
        assert(like_prefixes(prefixes[i], prefixes[j]));
        assert(like_times(times[i], times[j]));
        lemma_after(IdSource { nanos: times[i], count: start }, i as nat, 0);
        lemma_after(IdSource { nanos: times[j], count: start }, j as nat, 0);
        assert(ids[i] == first.id(prefixes[i], 0));
        assert(ids[j] == second.id(prefixes[j], 0));
        if ids[i] == ids[j] {
            if prefixes[i].len() <= prefixes[j].len() {
                lemma_prefixes(first, prefixes[i], second, prefixes[j]);
            } else {
                lemma_prefixes(second, prefixes[j], first, prefixes[i]);
            }
            law_identifiers_differ(prefixes[i], first, second);
            lemma_like_times(first, second);
            lemma_like_times(second, first);
            lemma_counts_in_turn(start, i as nat, j as nat);
        }
    }
}

/// The empty array.
pub open spec fn no_items() -> JsonView {
    JsonView::Array(Seq::empty())
}

pub(crate) fn empty_array() -> (value: Json)
    ensures
        value@ == no_items(),
{
    let value = Json::Array(Vec::new());
    assert(value@->Array_0 =~= Seq::<JsonView>::empty());
    value
}

pub(crate) fn one_item(item: Json) -> (value: Json)
    ensures
        value@ == JsonView::Array(seq![item@]),
{
    let mut items: Vec<Json> = Vec::new();
    let ghost only = item@;
    items.push(item);
    let value = Json::Array(items);
    assert(value@->Array_0 =~= seq![only]);
    value
}

/// One `output_text` content part.
pub open spec fn text_part(text: Seq<char>) -> JsonView {
    JsonView::Object(
        no_fields().insert("type"@, JsonView::Str("output_text"@)).insert(
            "text"@,
            JsonView::Str(text),
        ).insert("annotations"@, no_items()),
    )
}

pub(crate) fn output_text_part(text: &str) -> (part: Json)
    ensures
        part@ == text_part(text@),
{
    Json::Object(
        JsonObject::new().with("type", Json::text("output_text")).with(
            "text",
            Json::text(text),
        ).with("annotations", empty_array()),
    )
}

/// One assistant `message` item. It has no content while it is in progress.
pub open spec fn message(id: Seq<char>, status: Seq<char>, text: Option<Seq<char>>) -> JsonView {
    JsonView::Object(
        no_fields().insert("id"@, JsonView::Str(id)).insert(
            "type"@,
            JsonView::Str("message"@),
        ).insert("status"@, JsonView::Str(status)).insert(
            "role"@,
            JsonView::Str("assistant"@),
        ).insert(
            "content"@,
            match text {
                Some(text) => JsonView::Array(seq![text_part(text)]),
                None => no_items(),
            },
        ),
    )
}

pub(crate) fn message_item(item_id: &str, status: &str, text: Option<&str>) -> (item: Json)
    ensures
        item@ == message(item_id@, status@, text.deep_view()),
{
    let content = match text {
        Some(text) => one_item(output_text_part(text)),
        None => empty_array(),
    };
    Json::Object(
        JsonObject::new().with("id", Json::text(item_id)).with(
            "type",
            Json::text("message"),
        ).with("status", Json::text(status)).with("role", Json::text("assistant")).with(
            "content",
            content,
        ),
    )
}

/// One `function_call` item.
pub open spec fn function_call(
    id: Seq<char>,
    call_id: Seq<char>,
    name: Seq<char>,
    arguments: Seq<char>,
    status: Seq<char>,
) -> JsonView {
    JsonView::Object(
        no_fields().insert("id"@, JsonView::Str(id)).insert(
            "type"@,
            JsonView::Str("function_call"@),
        ).insert("status"@, JsonView::Str(status)).insert(
            "call_id"@,
            JsonView::Str(call_id),
        ).insert("name"@, JsonView::Str(name)).insert("arguments"@, JsonView::Str(arguments)),
    )
}

pub(crate) fn function_call_item(
    item_id: &str,
    call_id: &str,
    name: &str,
    arguments: &str,
    status: &str,
) -> (item: Json)
    ensures
        item@ == function_call(item_id@, call_id@, name@, arguments@, status@),
{
    Json::Object(
        JsonObject::new().with("id", Json::text(item_id)).with(
            "type",
            Json::text("function_call"),
        ).with("status", Json::text(status)).with("call_id", Json::text(call_id)).with(
            "name",
            Json::text(name),
        ).with("arguments", Json::text(arguments)),
    )
}

/// The `reasoning` item of a trace.
pub open spec fn reasoning(id: Seq<char>, trace: Seq<char>, part_type: Seq<char>) -> JsonView {
    JsonView::Object(
        no_fields().insert("id"@, JsonView::Str(id)).insert(
            "type"@,
            JsonView::Str("reasoning"@),
        ).insert("status"@, JsonView::Str("completed"@)).insert("summary"@, no_items()).insert(
            "content"@,
            JsonView::Array(
                seq![
                    JsonView::Object(
                        no_fields().insert("type"@, JsonView::Str(part_type)).insert(
                            "text"@,
                            JsonView::Str(trace),
                        ),
                    ),
                ],
            ),
        ).insert("encrypted_content"@, JsonView::Null),
    )
}

/// One `reasoning` output item: the trace is its one content part, of the given
/// type. It has no summary and no encrypted content.
pub fn reasoning_item(ids: &mut IdSource, trace: &str, part_type: &str) -> (item: Json)
    ensures
        item@ == reasoning(old(ids).id("rs_"@, 0), trace@, part_type@),
        *final(ids) == old(ids).after(1),
{
    let part = Json::Object(
        JsonObject::new().with("type", Json::text(part_type)).with("text", Json::text(trace)),
    );
    Json::Object(
        JsonObject::new().with("id", Json::Str(ids.new_id("rs_"))).with(
            "type",
            Json::text("reasoning"),
        ).with("status", Json::text("completed")).with("summary", empty_array()).with(
            "content",
            one_item(part),
        ).with("encrypted_content", Json::Null),
    )
}

/// The `reasoning` item before its content arrives.
pub open spec fn reasoning_in_progress(id: Seq<char>) -> JsonView {
    JsonView::Object(
        no_fields().insert("id"@, JsonView::Str(id)).insert(
            "type"@,
            JsonView::Str("reasoning"@),
        ).insert("status"@, JsonView::Str("in_progress"@)).insert("summary"@, no_items()).insert(
            "content"@,
            no_items(),
        ).insert("encrypted_content"@, JsonView::Null),
    )
}

pub(crate) fn reasoning_item_in_progress(item_id: &str) -> (item: Json)
    ensures
        item@ == reasoning_in_progress(item_id@),
{
    Json::Object(
        JsonObject::new().with("id", Json::text(item_id)).with(
            "type",
            Json::text("reasoning"),
        ).with("status", Json::text("in_progress")).with("summary", empty_array()).with(
            "content",
            empty_array(),
        ).with("encrypted_content", Json::Null),
    )
}

/// The `output` array of a text message.
pub fn message_output(ids: &mut IdSource, text: &str) -> (output: Json)
    ensures
        output@ == JsonView::Array(
            seq![message(old(ids).id("msg_"@, 0), "completed"@, Some(text@))],
        ),
        *final(ids) == old(ids).after(1),
{
    let id = ids.new_id("msg_");
    one_item(message_item(id.as_str(), "completed", Some(text)))
}

/// The `function_call` items of calls, each with two fresh identifiers.
pub open spec fn call_items(ids: IdSource, calls: Seq<ModelCallView>) -> Seq<JsonView> {
    Seq::new(
        calls.len(),
        |i: int|
            function_call(
                ids.id("fc_"@, (2 * i) as nat),
                ids.id("call_"@, (2 * i + 1) as nat),
                calls[i].name,
                calls[i].arguments,
                "completed"@,
            ),
    )
}

pub(crate) fn items_of_calls(ids: &mut IdSource, calls: &Vec<ModelCall>) -> (items: Vec<Json>)
    ensures
        values_view(items@) == call_items(*old(ids), calls_view(calls@)),
        *final(ids) == old(ids).after(2 * calls@.len()),
{
    let mut items: Vec<Json> = Vec::new();
    let ghost start = *ids;
    proof {
        lemma_after(start, 0, 0);
    }
    let size: usize = calls.len();
    for i in 0..size
        invariant
            size == calls@.len(),
            *ids == start.after(2 * i as nat),
            items@.len() == i,
            forall|j: int|
                0 <= j < i ==> (#[trigger] items@[j])@ == call_items(start, calls_view(calls@))[j],
    {
        proof {
            lemma_after(start, 2 * i as nat, 1);
            lemma_after(start, (2 * i + 1) as nat, 1);
            lemma_after(start, 2 * i as nat, 0);
            lemma_after(start, (2 * i + 1) as nat, 0);
        }
        let item_id = ids.new_id("fc_");
        let call_id = ids.new_id("call_");
        items.push(
            function_call_item(
                item_id.as_str(),
                call_id.as_str(),
                calls[i].name.as_str(),
                calls[i].arguments.as_str(),
                "completed",
            ),
        );
    }
    assert(values_view(items@) =~= call_items(start, calls_view(calls@)));
    items
}

/// The `output` array of function calls.
pub fn calls_output(ids: &mut IdSource, calls: &Vec<ModelCall>) -> (output: Json)
    ensures
        output@ == JsonView::Array(call_items(*old(ids), calls_view(calls@))),
        *final(ids) == old(ids).after(2 * calls@.len()),
{
    let items = items_of_calls(ids, calls);
    array_of(items)
}

pub(crate) fn array_of(items: Vec<Json>) -> (value: Json)
    ensures
        value@ == JsonView::Array(values_view(items@)),
{
    let value = Json::Array(items);
    assert(value@->Array_0 =~= values_view(items@));
    value
}

/// A reasoning item, where there is one, leads the output.
pub open spec fn with_reasoning(output: JsonView, reasoning: Option<JsonView>) -> JsonView {
    match reasoning {
        None => output,
        Some(item) => JsonView::Array(
            seq![item] + match output {
                JsonView::Array(rest) => rest,
                _ => Seq::empty(),
            },
        ),
    }
}

/// Puts a reasoning item before the items of an output array.
pub fn prepend_reasoning(output: Json, reasoning: Option<&Json>) -> (whole: Json)
    ensures
        whole@ == with_reasoning(output@, reasoning.deep_view()),
{
    match reasoning {
        None => output,
        Some(item) => {
            let ghost before = output@;
            let mut items: Vec<Json> = Vec::new();
            items.push(item.clone());
            if let Json::Array(rest) = output {
                let ghost tail = rest@;
                let mut rest = rest;
                items.append(&mut rest);
            }
            let whole = array_of(items);
            assert(whole@->Array_0 =~= with_reasoning(before, Some(item@))->Array_0);
            whole
        },
    }
}

/// The `usage` object: the exact counts and their exact sum.
pub open spec fn usage_object(usage: TokenUsage) -> JsonView {
    JsonView::Object(
        no_fields().insert("input_tokens"@, unsigned(usage.input_tokens as nat)).insert(
            "output_tokens"@,
            unsigned(usage.output_tokens as nat),
        ).insert(
            "total_tokens"@,
            unsigned((usage.input_tokens + usage.output_tokens) as nat),
        ).insert(
            "output_tokens_details"@,
            JsonView::Object(
                no_fields().insert("reasoning_tokens"@, unsigned(usage.reasoning_tokens as nat)),
            ),
        ),
    )
}

/// The `usage` object of one generation.
pub fn usage_json(usage: &TokenUsage) -> (value: Json)
    requires
        usage.fits(),
    ensures
        value@ == usage_object(*usage),
{
    let details = Json::Object(
        JsonObject::new().with("reasoning_tokens", Json::unsigned(usage.reasoning_tokens as u64)),
    );
    Json::Object(
        JsonObject::new().with("input_tokens", Json::unsigned(usage.input_tokens as u64)).with(
            "output_tokens",
            Json::unsigned(usage.output_tokens as u64),
        ).with("total_tokens", Json::unsigned(usage.total_tokens() as u64)).with(
            "output_tokens_details",
            details,
        ),
    )
}

/// The request-derived values that the response echoes beside the tool echo. A
/// field is present only when the request carried it.
#[derive(Debug)]
pub struct ResponseControls {
    /// The echo of `temperature`.
    pub temperature: Option<serde_json::Number>,
    /// The echo of `top_p`.
    pub top_p: Option<serde_json::Number>,
    /// The echo of `max_output_tokens`.
    pub max_output_tokens: Option<u32>,
    /// The effective `text.verbosity`.
    pub verbosity: Option<&'static str>,
}

/// The meaning of [`ResponseControls`].
pub struct ResponseControlsView {
    pub temperature: Option<NumberView>,
    pub top_p: Option<NumberView>,
    pub max_output_tokens: Option<u32>,
    pub verbosity: Option<Seq<char>>,
}

/// The view of an optional number.
pub open spec fn option_number(number: Option<serde_json::Number>) -> Option<NumberView> {
    match number {
        Some(number) => Some(number_view(number)),
        None => None,
    }
}

impl View for ResponseControls {
    type V = ResponseControlsView;

    open spec fn view(&self) -> ResponseControlsView {
        ResponseControlsView {
            temperature: option_number(self.temperature),
            top_p: option_number(self.top_p),
            max_output_tokens: self.max_output_tokens,
            verbosity: self.verbosity.deep_view(),
        }
    }
}

impl Default for ResponseControls {
    fn default() -> (controls: ResponseControls)
        ensures
            controls@ == (ResponseControlsView {
                temperature: None,
                top_p: None,
                max_output_tokens: None,
                verbosity: None,
            }),
    {
        ResponseControls { temperature: None, top_p: None, max_output_tokens: None, verbosity: None }
    }
}

/// What the two objects of one response share: all but its status, output and
/// usage.
pub struct ResponseHead {
    pub id: Seq<char>,
    pub created_at: u64,
    pub model: Seq<char>,
    pub metadata: Option<JsonView>,
    pub conversation: Option<Seq<char>>,
    pub echo: ToolEchoView,
    pub controls: ResponseControlsView,
}

/// The fields that every response object has.
pub open spec fn response_fields(
    head: ResponseHead,
    status: Seq<char>,
    output: JsonView,
    usage: JsonView,
) -> Map<Seq<char>, JsonView> {
    no_fields().insert("id"@, JsonView::Str(head.id)).insert(
        "object"@,
        JsonView::Str("response"@),
    ).insert("created_at"@, unsigned(head.created_at as nat)).insert(
        "status"@,
        JsonView::Str(status),
    ).insert("model"@, JsonView::Str(head.model)).insert(
        "metadata"@,
        match head.metadata {
            Some(metadata) => metadata,
            None => JsonView::Null,
        },
    ).insert("parallel_tool_calls"@, JsonView::Bool(head.echo.parallel_tool_calls)).insert(
        "tool_choice"@,
        head.echo.tool_choice,
    ).insert("tools"@, head.echo.tools).insert("output"@, output).insert("usage"@, usage)
}

/// The fields with one more where there is a value for it.
pub open spec fn with_some(
    fields: Map<Seq<char>, JsonView>,
    key: Seq<char>,
    value: Option<JsonView>,
) -> Map<Seq<char>, JsonView> {
    match value {
        Some(value) => fields.insert(key, value),
        None => fields,
    }
}

/// The optional number as a JSON value.
pub open spec fn number_value(number: Option<NumberView>) -> Option<JsonView> {
    match number {
        Some(number) => Some(JsonView::Number(number)),
        None => None,
    }
}

/// An object with one text field.
pub open spec fn one_text(key: Seq<char>, text: Seq<char>) -> JsonView {
    JsonView::Object(no_fields().insert(key, JsonView::Str(text)))
}

/// The response object.
pub open spec fn response_object(
    head: ResponseHead,
    status: Seq<char>,
    output: JsonView,
    usage: JsonView,
) -> JsonView {
    let fields = response_fields(head, status, output, usage);
    let fields = with_some(
        fields,
        "conversation"@,
        match head.conversation {
            Some(id) => Some(one_text("id"@, id)),
            None => None,
        },
    );
    let fields = with_some(fields, "temperature"@, number_value(head.controls.temperature));
    let fields = with_some(fields, "top_p"@, number_value(head.controls.top_p));
    let fields = with_some(
        fields,
        "max_output_tokens"@,
        match head.controls.max_output_tokens {
            Some(max) => Some(unsigned(max as nat)),
            None => None,
        },
    );
    let fields = with_some(
        fields,
        "text"@,
        match head.controls.verbosity {
            Some(verbosity) => Some(one_text("verbosity"@, verbosity)),
            None => None,
        },
    );
    JsonView::Object(fields)
}

/// The response object, as the body of a response and the payload of its
/// events carry it. A key that the request did not ask for is left out.
pub fn build_response_object(
    id: &str,
    created_at: u64,
    status: &str,
    model: &str,
    metadata: Option<&Json>,
    conversation: Option<&str>,
    echo: &ToolEcho,
    controls: &ResponseControls,
    output: Json,
    usage: Json,
) -> (object: Json)
    ensures
        object@ == response_object(
            (ResponseHead {
                id: id@,
                created_at,
                model: model@,
                metadata: metadata.deep_view(),
                conversation: conversation.deep_view(),
                echo: echo@,
                controls: controls@,
            }),
            status@,
            output@,
            usage@,
        ),
{
    let metadata = match metadata {
        Some(metadata) => metadata.clone(),
        None => Json::Null,
    };
    let mut object = JsonObject::new().with("id", Json::text(id)).with(
        "object",
        Json::text("response"),
    ).with("created_at", Json::unsigned(created_at)).with("status", Json::text(status)).with(
        "model",
        Json::text(model),
    ).with("metadata", metadata).with(
        "parallel_tool_calls",
        Json::Bool(echo.parallel_tool_calls),
    ).with("tool_choice", echo.tool_choice.clone()).with("tools", echo.tools.clone()).with(
        "output",
        output,
    ).with("usage", usage);
    if let Some(id) = conversation {
        object =
        object.with("conversation", Json::Object(JsonObject::new().with("id", Json::text(id))));
    }
    if let Some(temperature) = &controls.temperature {
        object = object.with("temperature", Json::Number(temperature.clone()));
    }
    if let Some(top_p) = &controls.top_p {
        object = object.with("top_p", Json::Number(top_p.clone()));
    }
    if let Some(max_output_tokens) = controls.max_output_tokens {
        object = object.with("max_output_tokens", Json::unsigned(max_output_tokens as u64));
    }
    if let Some(verbosity) = controls.verbosity {
        object =
        object.with(
            "text",
            Json::Object(JsonObject::new().with("verbosity", Json::text(verbosity))),
        );
    }
    Json::Object(object)
}

/// The body of a response that is not streamed. The identifier is the next one
/// and `now` is the time of creation in seconds.
pub fn build_response_with_conversation(
    ids: &mut IdSource,
    now: u64,
    model: &str,
    output: Json,
    echo: &ToolEcho,
    metadata: Option<&Json>,
    conversation: Option<&str>,
    controls: &ResponseControls,
    usage: &TokenUsage,
) -> (object: Json)
    requires
        usage.fits(),
    ensures
        object@ == response_object(
            (ResponseHead {
                id: old(ids).id("resp_"@, 0),
                created_at: now,
                model: model@,
                metadata: metadata.deep_view(),
                conversation: conversation.deep_view(),
                echo: echo@,
                controls: controls@,
            }),
            "completed"@,
            output@,
            usage_object(*usage),
        ),
        *final(ids) == old(ids).after(1),
{
    let id = ids.new_id("resp_");
    build_response_object(
        id.as_str(),
        now,
        "completed",
        model,
        metadata,
        conversation,
        echo,
        controls,
        output,
        usage_json(usage),
    )
}

proof fn lemma_response_keys()
    ensures
        "id"@.len() == 2,
        "text"@.len() == 4,
        "usage"@.len() == 5 && "usage"@[0] == 'u',
        "model"@.len() == 5 && "model"@[0] == 'm',
        "tools"@.len() == 5 && "tools"@[0] == 't' && "tools"@[2] == 'o',
        "top_p"@.len() == 5 && "top_p"@[0] == 't' && "top_p"@[2] == 'p',
        "output"@.len() == 6,
        "object"@.len() == 6,
        "status"@.len() == 6,
        "metadata"@.len() == 8,
        "created_at"@.len() == 10,
        "tool_choice"@.len() == 11 && "tool_choice"@[1] == 'o',
        "temperature"@.len() == 11 && "temperature"@[1] == 'e',
        "conversation"@.len() == 12,
        "max_output_tokens"@.len() == 17,
        "parallel_tool_calls"@.len() == 19,
{
    reveal_strlit("id");
    reveal_strlit("text");
    reveal_strlit("usage");
    reveal_strlit("model");
    reveal_strlit("tools");
    reveal_strlit("top_p");
    reveal_strlit("output");
    reveal_strlit("object");
    reveal_strlit("status");
    reveal_strlit("metadata");
    reveal_strlit("created_at");
    reveal_strlit("tool_choice");
    reveal_strlit("temperature");
    reveal_strlit("conversation");
    reveal_strlit("max_output_tokens");
    reveal_strlit("parallel_tool_calls");
}

/// The response echoes a control and a conversation exactly when the request
/// carried it; without them it has only the fields that every response has.
pub proof fn law_echo_follows_the_request(
    head: ResponseHead,
    status: Seq<char>,
    output: JsonView,
    usage: JsonView,
)
    ensures
        ({
            let fields = response_object(head, status, output, usage)->Object_0;
            &&& fields.contains_key("temperature"@) <==> head.controls.temperature is Some
            &&& fields.contains_key("top_p"@) <==> head.controls.top_p is Some
            &&& fields.contains_key("max_output_tokens"@)
                <==> head.controls.max_output_tokens is Some
            &&& fields.contains_key("text"@) <==> head.controls.verbosity is Some
            &&& fields.contains_key("conversation"@) <==> head.conversation is Some
        }),
{
    lemma_response_keys();
}

/// The usage of a response carries the exact counts: the total is the sum of the
/// prompt and the output.
pub proof fn law_usage_is_exact(usage: TokenUsage)
    requires
        usage.fits(),
    ensures
        ({
            let fields = usage_object(usage)->Object_0;
            &&& fields["input_tokens"@] == unsigned(usage.input_tokens as nat)
            &&& fields["output_tokens"@] == unsigned(usage.output_tokens as nat)
            &&& fields["total_tokens"@] == unsigned(
                (usage.input_tokens + usage.output_tokens) as nat,
            )
        }),
{
    reveal_strlit("input_tokens");
    reveal_strlit("output_tokens");
    reveal_strlit("total_tokens");
    reveal_strlit("output_tokens_details");
    assert("input_tokens"@.len() == 12 && "input_tokens"@[0] == 'i');
    assert("total_tokens"@.len() == 12 && "total_tokens"@[0] == 't');
    assert("output_tokens"@.len() == 13 && "output_tokens_details"@.len() == 21);
}

} // verus!
