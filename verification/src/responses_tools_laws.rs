//! What holds of function calling: the model can call every tool that the request
//! allows and no other, and what it calls is what comes out.

use vstd::prelude::*;

use crate::json::{field, first_unknown, text_field, unknown_keys, unsigned, JsonView};
use crate::json_text::json_text;
use crate::responses_input::field_or_null;
use crate::responses_tools::{
    allowed_tools,
    any_call_schema,
    call_reader,
    call_schema,
    calls_schema,
    envelope,
    read_declarations,
    read_tool,
    read_tool_choice,
    read_tools,
    read_turn,
    schema_to_convert,
    shape_schema,
    string_schema,
    tool_keys,
    tool_reader,
    ModelCallView,
    ModelTurnView,
    PendingToolView,
    ToolChoiceView,
    ToolRequestView,
};
use crate::seqs::{lemma_try_map_all, lemma_try_map_ok, try_map};

verus! {

/// The schemas one of which a value has to fit: those under `anyOf`, or the schema
/// itself.
pub open spec fn alternatives(schema: JsonView) -> Seq<JsonView> {
    match field(schema, "anyOf"@) {
        Some(JsonView::Array(schemas)) => schemas,
        _ => seq![schema],
    }
}

/// The schema of a property of an object schema.
pub open spec fn property(schema: JsonView, key: Seq<char>) -> JsonView {
    field_or_null(field_or_null(schema, "properties"@), key)
}

/// A schema of objects with exactly these properties.
pub open spec fn closed_object(schema: JsonView, keys: Seq<JsonView>) -> bool {
    &&& field(schema, "type"@) == Some(JsonView::Str("object"@))
    &&& field(schema, "required"@) == Some(JsonView::Array(keys))
    &&& field(schema, "additionalProperties"@) == Some(JsonView::Bool(false))
    &&& field(schema, "properties"@) matches Some(JsonView::Object(_))
}

/// The schema of a call of a tool: an object of its name and its arguments.
pub open spec fn is_call_of(schema: JsonView, tool: PendingToolView) -> bool {
    &&& closed_object(schema, seq![JsonView::Str("name"@), JsonView::Str("arguments"@)])
    &&& field(property(schema, "name"@), "enum"@) == Some(
        JsonView::Array(seq![JsonView::Str(tool.name)]),
    )
    &&& property(schema, "arguments"@) == tool.parameters
}

/// The choice allows a call of the tool.
pub open spec fn is_allowed(tool: PendingToolView, choice: ToolChoiceView) -> bool {
    choice matches ToolChoiceView::Function(name) ==> tool.name == name
}

proof fn lemma_schema_keys()
    ensures
        "anyOf"@.len() == 5 && "anyOf"@[0] == 'a',
        "type"@.len() == 4 && "type"@[0] == 't',
        "name"@.len() == 4 && "name"@[0] == 'n',
        "enum"@.len() == 4 && "enum"@[0] == 'e',
        "properties"@.len() == 10,
        "required"@.len() == 8 && "required"@[0] == 'r',
        "minItems"@.len() == 8 && "minItems"@[0] == 'm' && "minItems"@[1] == 'i',
        "maxItems"@.len() == 8 && "maxItems"@[0] == 'm' && "maxItems"@[1] == 'a',
        "items"@.len() == 5 && "items"@[0] == 'i',
        "calls"@.len() == 5 && "calls"@[0] == 'c',
        "message"@.len() == 7,
        "arguments"@.len() == 9,
        "additionalProperties"@.len() == 20,
        "description"@.len() == 11,
        "parameters"@.len() == 10 && "parameters"@[1] == 'a' && "properties"@[1] == 'r',
        "strict"@.len() == 6,
{
    reveal_strlit("anyOf");
    reveal_strlit("type");
    reveal_strlit("name");
    reveal_strlit("enum");
    reveal_strlit("properties");
    reveal_strlit("required");
    reveal_strlit("minItems");
    reveal_strlit("maxItems");
    reveal_strlit("items");
    reveal_strlit("calls");
    reveal_strlit("message");
    reveal_strlit("arguments");
    reveal_strlit("additionalProperties");
    reveal_strlit("description");
    reveal_strlit("parameters");
    reveal_strlit("strict");
}

proof fn lemma_kept(tools: Seq<PendingToolView>, keep: spec_fn(PendingToolView) -> bool)
    ensures
        forall|i: int|
            0 <= i < tools.len() && keep(#[trigger] tools[i]) ==> tools.filter(keep).contains(
                tools[i],
            ),
        forall|i: int|
            0 <= i < tools.filter(keep).len() ==> tools.contains(#[trigger] tools.filter(keep)[i])
                && keep(tools.filter(keep)[i]),
    decreases tools.len(),
{
    reveal(Seq::filter);
    if tools.len() > 0 {
        let front = tools.drop_last();
        lemma_kept(front, keep);
        let before = front.filter(keep);
        let kept = tools.filter(keep);
        assert forall|i: int| 0 <= i < tools.len() && keep(#[trigger] tools[i]) implies kept.contains(
            tools[i],
        ) by {
            if i < front.len() {
                assert(front[i] == tools[i]);
                let j = before.index_of(tools[i]);
                assert(kept[j] == tools[i]);
            } else {
                assert(kept.last() == tools[i]);
                assert(kept[kept.len() - 1] == tools[i]);
            }
        }
        assert forall|i: int| 0 <= i < kept.len() implies tools.contains(#[trigger] kept[i]) && keep(
            kept[i],
        ) by {
            if i < before.len() {
                assert(kept[i] == before[i]);
                assert(front.contains(before[i]));
                let j = front.index_of(before[i]);
                assert(tools[j] == before[i]);
            } else {
                assert(kept[i] == tools[tools.len() - 1]);
            }
        }
    }
}

proof fn lemma_allowed(tools: Seq<PendingToolView>, choice: ToolChoiceView)
    ensures
        forall|i: int|
            0 <= i < tools.len() && is_allowed(#[trigger] tools[i], choice) ==> allowed_tools(
                tools,
                choice,
            ).contains(tools[i]),
        forall|i: int|
            0 <= i < allowed_tools(tools, choice).len() ==> tools.contains(
                #[trigger] allowed_tools(tools, choice)[i],
            ) && is_allowed(allowed_tools(tools, choice)[i], choice),
{
    if let ToolChoiceView::Function(name) = choice {
        lemma_kept(tools, |tool: PendingToolView| tool.name == name);
    }
}

proof fn lemma_call_schema(tool: PendingToolView)
    ensures
        is_call_of(call_schema(tool), tool),
        field(call_schema(tool), "anyOf"@) is None,
{
    lemma_schema_keys();
}

proof fn lemma_shape(key: Seq<char>, schema: JsonView)
    ensures
        closed_object(shape_schema(key, schema), seq![JsonView::Str(key)]),
        property(shape_schema(key, schema), key) == schema,
        field(shape_schema(key, schema), "anyOf"@) is None,
{
    lemma_schema_keys();
}

proof fn lemma_calls_schema(allowed: Seq<PendingToolView>, parallel: bool)
    requires
        allowed.len() > 0,
    ensures
        ({
            let list = calls_schema(allowed, parallel);
            let calls = alternatives(field_or_null(list, "items"@));
            &&& field(list, "type"@) == Some(JsonView::Str("array"@))
            &&& field(list, "minItems"@) == Some(unsigned(1))
            &&& field(list, "maxItems"@) == if parallel {
                None
            } else {
                Some(unsigned(1))
            }
            &&& calls.len() == allowed.len()
            &&& forall|j: int|
                0 <= j < calls.len() ==> is_call_of(#[trigger] calls[j], allowed[j])
        }),
{
    lemma_schema_keys();
    let list = calls_schema(allowed, parallel);
    let schema = field_or_null(list, "items"@);
    assert(schema == any_call_schema(allowed));
    lemma_call_schema(allowed[0]);
    let calls = alternatives(schema);
    assert forall|j: int| 0 <= j < calls.len() implies is_call_of(
        #[trigger] calls[j],
        allowed[j],
    ) by {
        lemma_call_schema(allowed[j]);
    }
}

/// Some tool is one that the choice allows.
pub open spec fn allows_any(tools: Seq<PendingToolView>, choice: ToolChoiceView) -> bool {
    exists|i: int| 0 <= i < tools.len() && is_allowed(#[trigger] tools[i], choice)
}

/// The schema is that of a call of an allowed tool.
pub open spec fn is_allowed_call(
    schema: JsonView,
    tools: Seq<PendingToolView>,
    choice: ToolChoiceView,
) -> bool {
    exists|i: int|
        0 <= i < tools.len() && is_allowed(#[trigger] tools[i], choice) && is_call_of(
            schema,
            tools[i],
        )
}

/// The schemas are those of calls of the allowed tools: each allowed tool has one, and
/// each belongs to an allowed tool.
#[verifier::opaque]
pub open spec fn are_the_allowed_calls(
    calls: Seq<JsonView>,
    tools: Seq<PendingToolView>,
    choice: ToolChoiceView,
) -> bool {
    &&& forall|i: int|
        0 <= i < tools.len() && is_allowed(#[trigger] tools[i], choice) ==> exists|j: int|
            0 <= j < calls.len() && is_call_of(#[trigger] calls[j], tools[i])
    &&& forall|j: int| 0 <= j < calls.len() ==> is_allowed_call(#[trigger] calls[j], tools, choice)
}

proof fn lemma_allows_any(tools: Seq<PendingToolView>, choice: ToolChoiceView)
    ensures
        (allowed_tools(tools, choice).len() > 0) == allows_any(tools, choice),
{
    lemma_allowed(tools, choice);
    let allowed = allowed_tools(tools, choice);
    if allows_any(tools, choice) {
        let i = choose|i: int| 0 <= i < tools.len() && is_allowed(#[trigger] tools[i], choice);
        assert(allowed.contains(tools[i]));
    }
    if allowed.len() > 0 {
        assert(tools.contains(allowed[0]));
        let found = tools.index_of(allowed[0]);
        assert(is_allowed(tools[found], choice));
    }
}

proof fn lemma_allowed_calls(
    calls: Seq<JsonView>,
    tools: Seq<PendingToolView>,
    choice: ToolChoiceView,
)
    requires
        calls.len() == allowed_tools(tools, choice).len(),
        forall|j: int|
            0 <= j < calls.len() ==> is_call_of(
                #[trigger] calls[j],
                allowed_tools(tools, choice)[j],
            ),
    ensures
        are_the_allowed_calls(calls, tools, choice),
{
    reveal(are_the_allowed_calls);
    lemma_allowed(tools, choice);
    let allowed = allowed_tools(tools, choice);
    assert forall|i: int|
        0 <= i < tools.len() && is_allowed(#[trigger] tools[i], choice) implies exists|j: int|
        0 <= j < calls.len() && is_call_of(#[trigger] calls[j], tools[i]) by {
        let j = allowed.index_of(tools[i]);
        assert(is_call_of(calls[j], allowed[j]));
    }
    assert forall|j: int| 0 <= j < calls.len() implies is_allowed_call(
        #[trigger] calls[j],
        tools,
        choice,
    ) by {
        assert(tools.contains(allowed[j]));
        let i = tools.index_of(allowed[j]);
        assert(is_allowed(tools[i], choice) && is_call_of(calls[j], tools[i]));
    }
}

/// The model can call every tool that the choice allows and no other: each of them has
/// its own alternative among the schemas of a call, with its name and its parameters,
/// and there is no alternative that belongs to none. It can call at least once, more
/// than once only where calls are parallel, and answer with a text only where the
/// choice is `auto`. There is a schema exactly where some tool is allowed.
pub proof fn law_envelope_admits_the_allowed_calls(
    tools: Seq<PendingToolView>,
    parallel: bool,
    choice: ToolChoiceView,
)
    ensures
        (envelope(tools, parallel, choice) is Some) == allows_any(tools, choice),
        envelope(tools, parallel, choice) matches Some(schema) ==> {
            let shapes = alternatives(schema);
            let shape = shapes.last();
            let list = property(shape, "calls"@);
            &&& closed_object(shape, seq![JsonView::Str("calls"@)])
            &&& field(list, "type"@) == Some(JsonView::Str("array"@))
            &&& field(list, "minItems"@) == Some(unsigned(1))
            &&& field(list, "maxItems"@) == if parallel {
                None
            } else {
                Some(unsigned(1))
            }
            &&& are_the_allowed_calls(alternatives(field_or_null(list, "items"@)), tools, choice)
            &&& choice is Auto ==> {
                &&& shapes.len() == 2
                &&& closed_object(shapes[0], seq![JsonView::Str("message"@)])
                &&& field(property(shapes[0], "message"@), "type"@) == Some(
                    JsonView::Str("string"@),
                )
            }
            &&& !(choice is Auto) ==> shapes.len() == 1
        },
{
    lemma_allows_any(tools, choice);
    let allowed = allowed_tools(tools, choice);
    if let Some(schema) = envelope(tools, parallel, choice) {
        let list = calls_schema(allowed, parallel);
        let shape = shape_schema("calls"@, list);
        let text = shape_schema("message"@, string_schema());
        lemma_shape("calls"@, list);
        lemma_shape("message"@, string_schema());
        lemma_calls_schema(allowed, parallel);
        lemma_allowed_calls(alternatives(field_or_null(list, "items"@)), tools, choice);
        if choice is Auto {
            assert(alternatives(schema) == seq![text, shape]);
        } else {
            assert(alternatives(schema) == seq![shape]);
        }
    }
}

/// What an accepted entry of `tools` declares is what it says: its name, its parameters,
/// its description and the strict mode it asks for. It has no other field, and every
/// entry that is well-formed is accepted.
pub proof fn law_tool_is_read_as_declared(value: JsonView)
    ensures
        ({
            let known = |key: Seq<char>|
                key == "type"@ || key == "name"@ || key == "description"@ || key == "parameters"@
                    || key == "strict"@;
            let described = match field(value, "description"@) {
                None => true,
                Some(given) => given is Null || given is Str,
            };
            let constrained = match field(value, "strict"@) {
                None => true,
                Some(given) => given is Null || given is Bool,
            };
            let accepted = {
                &&& value is Object
                &&& forall|key: Seq<char>| #[trigger]
                    value->Object_0.contains_key(key) ==> known(key)
                &&& text_field(value, "type"@) == Some("function"@)
                &&& text_field(value, "name"@) matches Some(name) && name.len() > 0
                &&& field(value, "parameters"@) matches Some(parameters) && parameters is Object
                &&& described
                &&& constrained
            };
            &&& (read_tool(value) is Ok) == accepted
            &&& read_tool(value) matches Ok(tool) ==> {
                &&& text_field(value, "name"@) == Some(tool.name)
                &&& field(value, "parameters"@) == Some(tool.parameters)
                &&& tool.description == text_field(value, "description"@)
                &&& tool.strict_requested == match field(value, "strict"@) {
                    Some(JsonView::Bool(strict)) => Some(strict),
                    _ => None,
                }
            }
        }),
{
    if let JsonView::Object(object) = value {
        let keys = tool_keys();
        assert(keys[0] == "type"@ && keys[1] == "name"@ && keys[2] == "description"@ && keys[3]
            == "parameters"@ && keys[4] == "strict"@);
        if first_unknown(object, keys) is None {
            assert forall|key: Seq<char>| #[trigger] object.contains_key(key) implies key
                == "type"@ || key == "name"@ || key == "description"@ || key == "parameters"@ || key
                == "strict"@ by {
                assert(!unknown_keys(object, keys).contains(key));
            }
        } else {
            let key = choose|key: Seq<char>| unknown_keys(object, keys).contains(key);
            assert(object.contains_key(key) && !keys.contains(key));
        }
    }
}

/// What the choice of a request is: `auto` where it says nothing, each of the three
/// words for itself, and a function where it names one that is declared. `required`
/// needs a tool. Nothing else is accepted.
pub proof fn law_choice_is_read_as_given(
    value: Option<JsonView>,
    tools: Seq<PendingToolView>,
    name: Seq<char>,
)
    ensures
        read_tool_choice(value, tools) matches Ok(choice) ==> match choice {
            ToolChoiceView::Auto => value is None || value == Some(JsonView::Null) || value
                == Some(JsonView::Str("auto"@)),
            ToolChoiceView::Never => value == Some(JsonView::Str("none"@)),
            ToolChoiceView::Required => value == Some(JsonView::Str("required"@)) && tools.len()
                > 0,
            ToolChoiceView::Function(given) => {
                &&& value is Some
                &&& text_field(value->0, "type"@) == Some("function"@)
                &&& text_field(value->0, "name"@) == Some(given)
                &&& exists|i: int| 0 <= i < tools.len() && (#[trigger] tools[i]).name == given
            },
        },
        read_tool_choice(None, tools) == Ok::<ToolChoiceView, Seq<char>>(ToolChoiceView::Auto),
        read_tool_choice(Some(JsonView::Null), tools) == Ok::<ToolChoiceView, Seq<char>>(
            ToolChoiceView::Auto,
        ),
        read_tool_choice(Some(JsonView::Str("auto"@)), tools) == Ok::<ToolChoiceView, Seq<char>>(
            ToolChoiceView::Auto,
        ),
        read_tool_choice(Some(JsonView::Str("none"@)), tools) == Ok::<ToolChoiceView, Seq<char>>(
            ToolChoiceView::Never,
        ),
        tools.len() > 0 ==> read_tool_choice(Some(JsonView::Str("required"@)), tools) == Ok::<
            ToolChoiceView,
            Seq<char>,
        >(ToolChoiceView::Required),
        value is Some && value->0 is Object && text_field(value->0, "type"@) == Some("function"@)
            && text_field(value->0, "name"@) == Some(name) && (exists|i: int|
            0 <= i < tools.len() && (#[trigger] tools[i]).name == name) ==> read_tool_choice(
            value,
            tools,
        ) == Ok::<ToolChoiceView, Seq<char>>(ToolChoiceView::Function(name)),
{
    reveal_strlit("auto");
    reveal_strlit("none");
    reveal_strlit("required");
    assert("auto"@[0] == 'a' && "none"@[0] == 'n' && "required"@[0] == 'r');
}

/// The request that is made of declared tools holds every one of them, in their order
/// and as they were declared, with the choice that was made among them. Calls are
/// parallel unless the request says otherwise, and the grammar is the one that was
/// made from the schema of the envelope.
pub proof fn law_declared_tools_are_kept(
    tools: Seq<JsonView>,
    choice: Option<JsonView>,
    parallel_tool_calls: Option<bool>,
    converted: Result<Seq<char>, Seq<char>>,
    place: int,
)
    requires
        0 <= place < tools.len(),
    ensures
        read_tools(Some(tools), choice, parallel_tool_calls, converted) matches Ok(request) ==> {
            let declared = read_tool(tools[place]);
            &&& request.tools.len() == tools.len()
            &&& declared is Ok
            &&& request.tools[place].name == declared->Ok_0.name
            &&& request.tools[place].description == declared->Ok_0.description
            &&& request.tools[place].parameters == declared->Ok_0.parameters
            &&& request.parallel_tool_calls == (parallel_tool_calls != Some(false))
            &&& request.grammar matches Some(grammar) ==> converted == Ok::<Seq<char>, Seq<char>>(
                grammar,
            )
            &&& request.offers_tools() && converted is Ok ==> request.grammar is Some
            &&& request.choice is Never ==> request.grammar is None
            &&& try_map(tool_reader(), tools) is Ok
            &&& read_tool_choice(choice, try_map(tool_reader(), tools)->Ok_0) == Ok::<
                ToolChoiceView,
                Seq<char>,
            >(request.choice)
        },
        read_tool(tools[place]) is Err ==> read_tools(
            Some(tools),
            choice,
            parallel_tool_calls,
            converted,
        ) is Err,
{
    lemma_try_map_ok(tool_reader(), tools);
    if try_map(tool_reader(), tools) is Ok {
        let pending = try_map(tool_reader(), tools)->Ok_0;
        assert(tool_reader()(tools[place]) == Ok::<PendingToolView, Seq<char>>(pending[place]));
        if let Ok((_, chosen)) = read_declarations(Some(tools), choice) {
            lemma_choice_allows_any(choice, pending, chosen);
            lemma_allows_any(pending, chosen);
        }
    }
}

proof fn lemma_choice_allows_any(
    value: Option<JsonView>,
    tools: Seq<PendingToolView>,
    choice: ToolChoiceView,
)
    requires
        read_tool_choice(value, tools) == Ok::<ToolChoiceView, Seq<char>>(choice),
    ensures
        tools.len() > 0 ==> allows_any(tools, choice),
{
    law_choice_is_read_as_given(value, tools, Seq::empty());
    if tools.len() > 0 {
        if let ToolChoiceView::Function(name) = choice {
            let i = choose|i: int| 0 <= i < tools.len() && (#[trigger] tools[i]).name == name;
            assert(is_allowed(tools[i], choice));
        } else {
            assert(is_allowed(tools[0], choice));
        }
    }
}

/// The grammar is made from the schema of the envelope of the declared tools, wherever
/// a request offers tools, and from nothing elsewhere.
pub proof fn law_grammar_is_made_from_the_envelope(
    tools: Seq<JsonView>,
    choice: Option<JsonView>,
    parallel_tool_calls: Option<bool>,
)
    ensures
        schema_to_convert(Some(tools), choice, parallel_tool_calls) == match read_declarations(
            Some(tools),
            choice,
        ) {
            Ok((pending, chosen)) => if tools.len() > 0 && !(chosen is Never) {
                match envelope(pending, parallel_tool_calls != Some(false), chosen) {
                    Some(schema) => Some(json_text(schema)),
                    None => None,
                }
            } else {
                None
            },
            Err(_) => None,
        },
        schema_to_convert(None, choice, parallel_tool_calls) is None,
{
    lemma_try_map_ok(tool_reader(), tools);
    assert(try_map(tool_reader(), Seq::<JsonView>::empty()) == Ok::<
        Seq<PendingToolView>,
        Seq<char>,
    >(Seq::empty()));
}

/// The calls that come out are the calls that the model made, all of them and in their
/// order, each with the name and the arguments it gave. They come out exactly where
/// every one of them names a declared tool, the one that was asked for where the choice
/// names one, with an object of arguments, and where they are not too many. A text
/// comes out as it is, where the choice leaves that open.
pub proof fn law_calls_come_out_as_made(
    value: JsonView,
    calls: Seq<JsonView>,
    request: ToolRequestView,
)
    requires
        field(value, "calls"@) == Some(JsonView::Array(calls)),
    ensures
        ({
            let accepted = {
                &&& calls.len() > 0
                &&& request.parallel_tool_calls || calls.len() == 1
                &&& forall|i: int|
                    0 <= i < calls.len() ==> {
                        &&& text_field(#[trigger] calls[i], "name"@) matches Some(name)
                        &&& exists|j: int|
                            0 <= j < request.tools.len() && (#[trigger] request.tools[j]).name
                                == name
                        &&& request.choice matches ToolChoiceView::Function(chosen) ==> name
                            == chosen
                        &&& field(calls[i], "arguments"@) matches Some(arguments) && arguments is Object
                    }
            };
            &&& (read_turn(value, request) is Ok) == accepted
            &&& read_turn(value, request) matches Ok(turn) ==> {
                &&& turn matches ModelTurnView::Calls(made)
                &&& made.len() == calls.len()
                &&& forall|i: int|
                    0 <= i < calls.len() ==> text_field(calls[i], "name"@) == Some(
                        (#[trigger] made[i]).name,
                    ) && made[i].arguments == json_text(field(calls[i], "arguments"@)->0)
            }
        }),
{
    let f = call_reader(request);
    lemma_try_map_ok(f, calls);
    if forall|i: int| 0 <= i < calls.len() ==> f(#[trigger] calls[i]) is Ok {
        lemma_try_map_all(f, calls);
    }
    if read_turn(value, request) is Ok {
        let made = read_turn(value, request)->Ok_0->Calls_0;
        assert forall|i: int| 0 <= i < calls.len() implies {
            &&& text_field(#[trigger] calls[i], "name"@) matches Some(name)
            &&& exists|j: int|
                0 <= j < request.tools.len() && (#[trigger] request.tools[j]).name == name
            &&& request.choice matches ToolChoiceView::Function(chosen) ==> name == chosen
            &&& field(calls[i], "arguments"@) matches Some(arguments) && arguments is Object
        } by {
            assert(f(calls[i]) == Ok::<ModelCallView, Seq<char>>(made[i]));
        }
        assert forall|i: int| 0 <= i < calls.len() implies text_field(calls[i], "name"@) == Some(
            (#[trigger] made[i]).name,
        ) && made[i].arguments == json_text(field(calls[i], "arguments"@)->0) by {
            assert(f(calls[i]) == Ok::<ModelCallView, Seq<char>>(made[i]));
        }
    }
}

/// An envelope without calls is its message, as it stands, where the choice is `auto`;
/// otherwise it is refused.
pub proof fn law_message_comes_out_as_given(value: JsonView, request: ToolRequestView)
    requires
        field(value, "calls"@) is None,
    ensures
        read_turn(value, request) matches Ok(turn) ==> request.choice is Auto && (turn matches
            ModelTurnView::Message(text) && text_field(value, "message"@) == Some(text)),
        request.choice is Auto && text_field(value, "message"@) is Some ==> read_turn(
            value,
            request,
        ) is Ok,
{
}

/// What the response echoes of a request that offers tools is what was accepted: every
/// tool with its fields, in their order, the choice and whether calls are parallel.
pub proof fn law_echo_shows_the_tools(request: ToolRequestView, place: int)
    requires
        request.offers_tools(),
        0 <= place < request.tools.len(),
    ensures
        ({
            let echo = request.echo();
            let tool = request.tools[place];
            &&& echo.parallel_tool_calls == request.parallel_tool_calls
            &&& echo.tools matches JsonView::Array(shown)
            &&& shown.len() == request.tools.len()
            &&& text_field(shown[place], "type"@) == Some("function"@)
            &&& text_field(shown[place], "name"@) == Some(tool.name)
            &&& field(shown[place], "parameters"@) == Some(tool.parameters)
            &&& field(shown[place], "strict"@) == Some(JsonView::Bool(tool.strict))
            &&& text_field(shown[place], "description"@) == tool.description
            &&& match request.choice {
                ToolChoiceView::Auto => echo.tool_choice == JsonView::Str("auto"@),
                ToolChoiceView::Required => echo.tool_choice == JsonView::Str("required"@),
                ToolChoiceView::Function(name) => text_field(echo.tool_choice, "type"@) == Some(
                    "function"@,
                ) && text_field(echo.tool_choice, "name"@) == Some(name),
                ToolChoiceView::Never => false,
            }
        }),
{
    lemma_schema_keys();
}

/// A tool is strict exactly where a grammar was made and the tool did not turn that
/// off. A grammar that could not be made is an error exactly where a tool asked for
/// strict mode; otherwise the tools are offered without one.
pub proof fn law_strictness_is_settled(
    tools: Seq<JsonView>,
    choice: Option<JsonView>,
    parallel_tool_calls: Option<bool>,
    converted: Result<Seq<char>, Seq<char>>,
    place: int,
)
    requires
        0 <= place < tools.len(),
    ensures
        read_tools(Some(tools), choice, parallel_tool_calls, converted) matches Ok(request)
            ==> request.tools[place].strict == (request.grammar is Some && read_tool(
            tools[place],
        )->Ok_0.strict_requested != Some(false)),
        read_declarations(Some(tools), choice) matches Ok(declared) ==> converted is Err
            && !(declared.1 is Never) ==> (read_tools(
            Some(tools),
            choice,
            parallel_tool_calls,
            converted,
        ) is Err) == (exists|i: int|
            0 <= i < declared.0.len() && (#[trigger] declared.0[i]).strict_requested == Some(
                true,
            )),
        read_declarations(Some(tools), choice) is Err ==> read_tools(
            Some(tools),
            choice,
            parallel_tool_calls,
            converted,
        ) is Err,
{
    lemma_try_map_ok(tool_reader(), tools);
    if try_map(tool_reader(), tools) is Ok {
        assert(tool_reader()(tools[place]) is Ok);
    }
}

} // verus!
