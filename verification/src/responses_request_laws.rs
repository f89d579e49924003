//! What holds of whole requests: what a request asks for reaches the generation, and a
//! request that continues a response or a conversation is told what came before.

use vstd::prelude::*;

use crate::json::{field, JsonView, NumberView};
use crate::json_text::json_text;
use crate::responses::{
    choice_refusal,
    continued_items,
    effective,
    prompt_of_items,
    validated,
    with_note,
    with_notes,
    CreateRequestView,
    EffectiveView,
    GrammarsView,
    PreparedView,
};
use crate::responses_generation::generation_effect;
use crate::responses_input::{
    field_or_null,
    item_reader,
    items_of,
    outputs_as_input,
    prompt_of,
    read_input_items,
    read_items,
    stored_items,
    InputItemView,
    InputView,
    PromptTexts,
};
use crate::responses_input_laws::{law_stored_input_gives_the_same_prompt, proper_input};
use crate::responses_profile::ResponsesApi;
use crate::responses_prompt_laws::{
    glued,
    law_prompt_follows_the_items,
    law_prompt_of_one_item,
    speaks_to_user,
    two_lines,
};
use crate::responses_reasoning::reasoning_effect;
use crate::responses_schema::{text_effect, Verbosity};
use crate::responses_store::{ConversationView, StoredResponseView};
use crate::responses_tools::{
    note_opening,
    read_tools,
    tool_line,
    tool_lines,
    FunctionToolView,
    ToolChoiceView,
    ToolRequestView,
};
use crate::seqs::lemma_try_map_parts;
use crate::text::joined;

verus! {

/// The part stands somewhere in the text, without a break.
pub open spec fn has_text(text: Seq<char>, part: Seq<char>) -> bool {
    exists|at: int|
        0 <= at <= text.len() - part.len() && #[trigger] text.subrange(at, at + part.len()) == part
}

/// The text ends with the part.
pub open spec fn ends_with(text: Seq<char>, part: Seq<char>) -> bool {
    part.len() <= text.len() && text.subrange(text.len() - part.len(), text.len() as int) == part
}

/// What stands in a text stands in every longer one around it.
pub proof fn lemma_has_text(before: Seq<char>, text: Seq<char>, after: Seq<char>, part: Seq<char>)
    requires
        has_text(text, part),
    ensures
        has_text(before + text + after, part),
{
    let at = choose|at: int|
        0 <= at <= text.len() - part.len() && #[trigger] text.subrange(at, at + part.len()) == part;
    let whole = before + text + after;
    let place = before.len() + at;
    assert(whole.subrange(place, place + part.len()) =~= text.subrange(at, at + part.len()));
}

/// What stands between two texts is there.
pub proof fn lemma_is_there(before: Seq<char>, part: Seq<char>, after: Seq<char>)
    ensures
        has_text(before + part + after, part),
        ends_with(before + part, part),
        has_text(part, part),
{
    assert(part.subrange(0int, 0int + part.len()) =~= part);
    lemma_has_text(before, part, after, part);
    let whole = before + part;
    assert(whole.subrange(whole.len() - part.len(), whole.len() as int) =~= part);
}

proof fn lemma_notes(
    system: Seq<char>,
    tools: ToolRequestView,
    directive: Option<Seq<char>>,
)
    ensures
        ({
            let whole = with_notes(system, tools, directive);
            &&& system.is_prefix_of(whole)
            &&& tools.system_note() matches Some(note) ==> has_text(whole, note)
            &&& directive matches Some(note) ==> ends_with(whole, note)
            &&& tools.system_note() is None && directive is None ==> whole == system
            &&& tools.system_note() matches Some(note) ==> directive is None ==> whole
                == if system.len() == 0 {
                note
            } else {
                two_lines(system, note)
            }
        }),
{
    let told = with_note(system, tools.system_note());
    let whole = with_notes(system, tools, directive);
    assert(system.is_prefix_of(told)) by {
        assert(told.subrange(0, system.len() as int) =~= system);
    }
    assert(system.is_prefix_of(whole)) by {
        assert(whole.subrange(0, system.len() as int) =~= system);
    }
    if let Some(note) = tools.system_note() {
        lemma_is_there(Seq::empty(), note, Seq::empty());
        lemma_is_there(system + "\n"@, note, Seq::empty());
        assert(system + "\n"@ + note + Seq::<char>::empty() =~= system + "\n"@ + note);
        assert(has_text(told, note));
        if let Some(last) = directive {
            if told.len() > 0 {
                lemma_has_text(Seq::empty(), told, "\n"@ + last, note);
                assert(Seq::<char>::empty() + told + ("\n"@ + last) =~= whole);
            } else {
                assert(note =~= Seq::empty());
                assert(whole.subrange(0int, 0int + note.len()) =~= note);
            }
        }
    }
    if let Some(last) = directive {
        lemma_is_there(told + "\n"@, last, Seq::empty());
        lemma_is_there(Seq::empty(), last, Seq::empty());
        assert(Seq::<char>::empty() + last =~= last);
    }
}

/// A continued request gets the same notes as a lone one: whatever came before, its
/// system text tells the tools and the envelope, and ends with the directive.
pub proof fn law_continued_request_is_told_the_tools(
    request: CreateRequestView,
    prepared: PreparedView,
    previous: Option<StoredResponseView>,
    conversation: Option<ConversationView>,
)
    requires
        previous is Some || conversation is Some,
    ensures
        effective(request, prepared, previous, conversation) matches Ok(prompt) ==> {
            &&& prepared.tools.offers_tools() ==> prepared.tools.system_note() is Some && has_text(
                prompt.system,
                prepared.tools.system_note()->0,
            )
            &&& prepared.verbosity_directive matches Some(directive) ==> ends_with(
                prompt.system,
                directive,
            )
            &&& request.instructions matches Some(instructions) ==> instructions.is_prefix_of(
                prompt.system,
            )
        },
{
    if effective(request, prepared, previous, conversation) is Ok {
        let current = items_of(request.input);
        let items = match conversation {
            Some(conversation) => stored_items(conversation.items) + current,
            None => continued_items(previous->0, current),
        };
        let input = read_input_items(items)->Ok_0;
        let prompt = prompt_of(request.instructions, input)->Ok_0;
        lemma_notes(prompt.system, prepared.tools, prepared.verbosity_directive);
        if let Some(instructions) = request.instructions {
            let whole = effective(request, prepared, previous, conversation)->Ok_0.system;
            let read = input->Messages_0;
            law_prompt_follows_the_items(request.instructions, Seq::empty(), read);
            assert(Seq::empty() + read =~= read);
            law_prompt_of_one_item(request.instructions, arbitrary(), Seq::empty());
            assert(prompt.system.subrange(0, instructions.len() as int) =~= instructions);
            assert(whole.subrange(0, instructions.len() as int) =~= prompt.system.subrange(
                0,
                instructions.len() as int,
            )) by {
                assert(prompt.system =~= whole.subrange(0, prompt.system.len() as int));
            }
        }
    }
}

/// A request that continues nothing yet, an empty conversation or a response without
/// items, has the prompt of a lone request.
pub proof fn law_empty_history_changes_nothing(
    request: CreateRequestView,
    loaded_model: Seq<char>,
    profile: ResponsesApi,
    grammars: GrammarsView,
    previous: StoredResponseView,
    conversation: ConversationView,
)
    requires
        proper_input(request.input),
        validated(request, loaded_model, profile, grammars) is Ok,
        conversation.items.len() == 0,
        previous.input_items.len() == 0,
        field(previous.response, "output"@) matches Some(JsonView::Array(output)) ==> output.len()
            == 0,
    ensures
        ({
            let prepared = validated(request, loaded_model, profile, grammars)->Ok_0;
            let lone = effective(request, prepared, None, None);
            &&& lone is Ok
            &&& lone->Ok_0.system == prepared.system
            &&& lone->Ok_0.user == prepared.user
            &&& effective(request, prepared, Some(previous), None) == lone
            &&& effective(request, prepared, None, Some(conversation)) == lone
            &&& effective(request, prepared, Some(previous), Some(conversation)) == lone
        }),
{
    let current = items_of(request.input);
    law_stored_input_gives_the_same_prompt(request.instructions, request.input);
    assert(conversation.items =~= Seq::empty());
    assert(stored_items(conversation.items) + current =~= current);
    let output = field_or_null(previous.response, "output"@);
    if let JsonView::Array(list) = output {
        assert(list =~= Seq::empty());
    }
    assert(outputs_as_input(output) =~= Seq::empty());
    assert(continued_items(previous, current) =~= current);
}

/// The user text of items, where they can be read and told.
pub open spec fn told_by(items: Seq<JsonView>) -> Result<PromptTexts, Seq<char>> {
    match read_input_items(items) {
        Ok(input) => prompt_of(None, input),
        Err(error) => Err(error),
    }
}

proof fn lemma_told_in_turn(
    instructions: Option<Seq<char>>,
    first: Seq<JsonView>,
    second: Seq<JsonView>,
)
    requires
        read_input_items(first + second) is Ok,
        prompt_of(instructions, read_input_items(first + second)->Ok_0) is Ok,
    ensures
        told_by(first) is Ok,
        told_by(second) is Ok,
        ({
            let whole = prompt_of(instructions, read_input_items(first + second)->Ok_0)->Ok_0;
            &&& told_by(first)->Ok_0.user.is_prefix_of(whole.user)
            &&& ends_with(whole.user, told_by(second)->Ok_0.user)
        }),
{
    lemma_try_map_parts(item_reader(), first, second);
    let one = read_items(first)->Ok_0;
    let two = read_items(second)->Ok_0;
    law_prompt_follows_the_items(instructions, one, two);
    law_prompt_follows_the_items(instructions, one, Seq::empty());
    law_prompt_follows_the_items(None, one, Seq::empty());
    law_prompt_follows_the_items(None, Seq::empty(), two);
    law_prompt_follows_the_items(instructions, Seq::empty(), one);
    law_prompt_follows_the_items(None, Seq::empty(), one);
    law_prompt_of_one_item(instructions, arbitrary(), Seq::empty());
    law_prompt_of_one_item(None, arbitrary(), Seq::empty());
    assert(one + Seq::empty() =~= one);
    assert(Seq::empty() + two =~= two);
    assert(Seq::empty() + one =~= one);
    assert(!speaks_to_user(Seq::<InputItemView>::empty()));
    let whole = prompt_of(instructions, InputView::Messages(one + two))->Ok_0;
    let before = prompt_of(None, InputView::Messages(one))->Ok_0.user;
    let after = prompt_of(None, InputView::Messages(two))->Ok_0.user;
    assert(before == prompt_of(instructions, InputView::Messages(one))->Ok_0.user);
    assert(whole.user == glued(speaks_to_user(one), before, speaks_to_user(two), after));
    assert(whole.user.subrange(0, before.len() as int) =~= before);
    assert(whole.user.subrange(whole.user.len() - after.len(), whole.user.len() as int) =~= after);
}

/// A request that continues a response says first what the response answered, then what
/// it answered, then what the request itself says, and all of it is stored with the
/// new response, in that order.
pub proof fn law_continued_response_is_told_in_order(
    request: CreateRequestView,
    prepared: PreparedView,
    previous: StoredResponseView,
)
    requires
        proper_input(request.input),
    ensures
        effective(request, prepared, Some(previous), None) matches Ok(prompt) ==> {
            let answered = outputs_as_input(field_or_null(previous.response, "output"@));
            let own = prompt_of(None, request.input);
            &&& own is Ok
            &&& ends_with(prompt.user, own->Ok_0.user)
            &&& told_by(previous.input_items) is Ok
            &&& told_by(previous.input_items)->Ok_0.user.is_prefix_of(prompt.user)
            &&& told_by(answered) is Ok
            &&& has_text(prompt.user, told_by(answered)->Ok_0.user)
            &&& prompt.input_items == previous.input_items + answered + items_of(request.input)
        },
{
    if effective(request, prepared, Some(previous), None) is Ok {
        let answered = outputs_as_input(field_or_null(previous.response, "output"@));
        let current = items_of(request.input);
        let before = previous.input_items + answered;
        law_stored_input_gives_the_same_prompt(None, request.input);
        assert(continued_items(previous, current) =~= before + current);
        lemma_told_in_turn(request.instructions, before, current);
        assert(read_input_items(before) is Ok && prompt_of(
            None,
            read_input_items(before)->Ok_0,
        ) is Ok);
        lemma_told_in_turn(None, previous.input_items, answered);
        let whole = effective(request, prepared, Some(previous), None)->Ok_0.user;
        let history = told_by(before)->Ok_0.user;
        let first = told_by(previous.input_items)->Ok_0.user;
        let middle = told_by(answered)->Ok_0.user;
        assert(history =~= whole.subrange(0, history.len() as int));
        assert(first =~= history.subrange(0, first.len() as int));
        assert(whole.subrange(0, first.len() as int) =~= first);
        let at = history.len() - middle.len();
        assert(whole.subrange(at, at + middle.len()) =~= history.subrange(
            at,
            history.len() as int,
        ));
    }
}

/// A request in a conversation says first what the conversation holds and then what the
/// request itself says. The items of the conversation are not stored with the response,
/// and a response to continue is not looked at.
pub proof fn law_conversation_is_told_in_order(
    request: CreateRequestView,
    prepared: PreparedView,
    previous: Option<StoredResponseView>,
    conversation: ConversationView,
)
    requires
        proper_input(request.input),
    ensures
        effective(request, prepared, previous, Some(conversation)) matches Ok(prompt) ==> {
            let own = prompt_of(None, request.input);
            let held = told_by(stored_items(conversation.items));
            &&& own is Ok
            &&& ends_with(prompt.user, own->Ok_0.user)
            &&& held is Ok
            &&& held->Ok_0.user.is_prefix_of(prompt.user)
            &&& prompt.input_items == items_of(request.input)
        },
{
    if effective(request, prepared, previous, Some(conversation)) is Ok {
        let current = items_of(request.input);
        law_stored_input_gives_the_same_prompt(None, request.input);
        lemma_told_in_turn(request.instructions, stored_items(conversation.items), current);
    }
}

proof fn lemma_tool_lines(tools: Seq<FunctionToolView>, place: int, part: Seq<char>)
    requires
        0 <= place < tools.len(),
        has_text(tool_line(tools[place]), part),
    ensures
        has_text(tool_lines(tools), part),
    decreases tools.len(),
{
    let front = tools.drop_last();
    if place < front.len() {
        lemma_tool_lines(front, place, part);
        lemma_has_text(Seq::empty(), tool_lines(front), tool_line(tools.last()), part);
        assert(Seq::<char>::empty() + tool_lines(front) + tool_line(tools.last()) =~= tool_lines(
            tools,
        ));
    } else {
        lemma_has_text(tool_lines(front), tool_line(tools.last()), Seq::empty(), part);
        assert(tool_lines(front) + tool_line(tools.last()) + Seq::<char>::empty() =~= tool_lines(
            tools,
        ));
    }
}

proof fn lemma_one_behind_the_other(
    one: Seq<char>,
    two: Seq<char>,
    three: Seq<char>,
    four: Seq<char>,
)
    ensures
        one + two + three == one + (two + three),
        one + two + (three + four) == one + (two + three + four),
        one + two + three + four == one + (two + three + four),
        one + two + three + four == one + two + (three + four),
{
    assert(one + two + three =~= one + (two + three));
    assert(one + two + (three + four) =~= one + (two + three + four));
    assert(one + two + three + four =~= one + (two + three + four));
}

proof fn lemma_line_parts(tool: FunctionToolView)
    ensures
        has_text(tool_line(tool), "- "@ + tool.name + ": "@),
        has_text(tool_line(tool), " arguments "@ + json_text(tool.parameters) + "\n"@),
        tool.description matches Some(description) ==> has_text(
            tool_line(tool),
            tool.name + ": "@ + description + " arguments "@,
        ),
{
    let line = tool_line(tool);
    let words = match tool.description {
        Some(description) => description,
        None => "no description"@,
    };
    let dash = "- "@;
    let colon = ": "@;
    let between = " arguments "@;
    let end = "\n"@;
    let name = tool.name;
    let arguments = json_text(tool.parameters);
    let head = dash + name + colon;
    let rest = between + arguments + end;
    let named = name + colon + words + between;
    assert(line == head + words + between + arguments + end);
    lemma_one_behind_the_other(head + words, between, arguments, end);
    assert(line == head + words + rest);
    lemma_one_behind_the_other(head, words, rest, Seq::empty());
    lemma_is_there(Seq::empty(), head, words + rest);
    assert(Seq::<char>::empty() + head =~= head);
    lemma_is_there(head + words, rest, Seq::empty());
    assert(line + Seq::<char>::empty() =~= line);
    lemma_one_behind_the_other(dash, name, colon, words);
    lemma_one_behind_the_other(dash, name + colon + words, between, Seq::empty());
    assert(line == dash + named + arguments + end);
    lemma_one_behind_the_other(dash + named, arguments, end, Seq::empty());
    lemma_is_there(dash, named, arguments + end);
}

proof fn lemma_note_parts(request: ToolRequestView, place: int, part: Seq<char>)
    requires
        request.offers_tools(),
        0 <= place < request.tools.len(),
        has_text(tool_line(request.tools[place]), part),
    ensures
        request.system_note() is Some,
        has_text(request.system_note()->0, part),
{
    let note = request.system_note()->0;
    let lines = tool_lines(request.tools);
    lemma_tool_lines(request.tools, place, part);
    let before = note.subrange(0, note.len() - lines.len());
    assert(before + lines + Seq::<char>::empty() =~= note);
    lemma_has_text(before, lines, Seq::empty(), part);
}

proof fn lemma_note_order(request: ToolRequestView, name: Seq<char>)
    requires
        request.offers_tools(),
        request.choice == ToolChoiceView::Function(name),
    ensures
        has_text(request.system_note()->0, "You must call the function `"@ + name + "`"@),
{
    let order = "You must call the function `"@ + name + "`"@;
    let after = ".\n"@ + "Tools:\n"@ + tool_lines(request.tools);
    assert("`.\n"@ =~= "`"@ + ".\n"@) by {
        reveal_strlit("`.\n");
        reveal_strlit("`");
        reveal_strlit(".\n");
    }
    lemma_is_there(note_opening(), order, after);
    assert(note_opening() + order + after =~= request.system_note()->0);
}

/// The model is told every tool that is offered: its name, its description where it has
/// one, and its parameters. It is told which function it has to call where the choice
/// names one, and that it has to call one where the choice requires that.
pub proof fn law_every_tool_is_told(request: ToolRequestView, place: int)
    requires
        request.offers_tools(),
        0 <= place < request.tools.len(),
    ensures
        request.system_note() is Some,
        ({
            let note = request.system_note()->0;
            let tool = request.tools[place];
            &&& has_text(note, "- "@ + tool.name + ": "@)
            &&& has_text(note, " arguments "@ + json_text(tool.parameters) + "\n"@)
            &&& tool.description matches Some(description) ==> has_text(
                note,
                tool.name + ": "@ + description + " arguments "@,
            )
            &&& request.choice matches ToolChoiceView::Function(name) ==> has_text(
                note,
                "You must call the function `"@ + name + "`"@,
            )
            &&& request.choice is Required ==> has_text(note, "You must call at least one tool.\n"@)
            &&& note_opening().is_prefix_of(note)
        }),
{
    let note = request.system_note()->0;
    assert(note.subrange(0, note_opening().len() as int) =~= note_opening());
    if request.choice is Required {
        let after = "Tools:\n"@ + tool_lines(request.tools);
        lemma_is_there(note_opening(), "You must call at least one tool.\n"@, after);
        assert(note_opening() + "You must call at least one tool.\n"@ + after =~= note);
    }
    let tool = request.tools[place];
    lemma_line_parts(tool);
    lemma_note_parts(request, place, "- "@ + tool.name + ": "@);
    lemma_note_parts(request, place, " arguments "@ + json_text(tool.parameters) + "\n"@);
    if let Some(description) = tool.description {
        lemma_note_parts(request, place, tool.name + ": "@ + description + " arguments "@);
    }
    if let ToolChoiceView::Function(name) = request.choice {
        lemma_note_order(request, name);
    }
}

/// The prompt that is prepared for a request is that of its instructions and its input,
/// and behind it stand the notes: that of the tools where tools are offered. Without a
/// note it is that prompt and nothing else.
pub proof fn law_prepared_prompt_is_the_input_and_its_notes(
    request: CreateRequestView,
    loaded_model: Seq<char>,
    profile: ResponsesApi,
    grammars: GrammarsView,
)
    ensures
        validated(request, loaded_model, profile, grammars) matches Ok(prepared) ==> {
            let prompt = prompt_of(request.instructions, request.input);
            &&& prompt is Ok
            &&& prepared.user == prompt->Ok_0.user
            &&& prompt->Ok_0.system.is_prefix_of(prepared.system)
            &&& prepared.tools.system_note() matches Some(note) ==> has_text(prepared.system, note)
            &&& prepared.verbosity_directive matches Some(directive) ==> ends_with(
                prepared.system,
                directive,
            )
            &&& !prepared.tools.offers_tools() && prepared.verbosity_directive is None
                ==> prepared.system == prompt->Ok_0.system
        },
{
    if let Ok(prepared) = validated(request, loaded_model, profile, grammars) {
        let prompt = prompt_of(request.instructions, request.input)->Ok_0;
        lemma_notes(prompt.system, prepared.tools, prepared.verbosity_directive);
    }
}

/// The controls of an accepted request reach the generation: the count that it sends is
/// the limit under every profile, and the numbers that it sends are those of the
/// sampler, except under `deepseek` while it thinks. All of them are echoed as sent.
pub proof fn law_accepted_controls_hold(
    request: CreateRequestView,
    loaded_model: Seq<char>,
    profile: ResponsesApi,
    grammars: GrammarsView,
)
    ensures
        validated(request, loaded_model, profile, grammars) matches Ok(prepared) ==> {
            &&& request.max_output_tokens matches Some(JsonView::Number(NumberView::PosInt(n)))
                ==> {
                &&& 1 <= n <= i32::MAX
                &&& prepared.generation.max_output_tokens == Some(n as u32)
                &&& prepared.generation_echo.max_output_tokens == Some(n as u32)
            }
            &&& request.max_output_tokens is None
                ==> prepared.generation.max_output_tokens is None
                && prepared.generation_echo.max_output_tokens is None
            &&& request.temperature matches Some(JsonView::Number(NumberView::Float(bits))) ==> {
                &&& prepared.generation_echo.temperature == Some(NumberView::Float(bits))
                &&& !(profile is Deepseek) || !prepared.reasoning.thinking
                    ==> prepared.generation.temperature == bits
            }
            &&& request.top_p matches Some(JsonView::Number(NumberView::Float(bits))) ==> {
                &&& prepared.generation_echo.top_p == Some(NumberView::Float(bits))
                &&& !(profile is Deepseek) || !prepared.reasoning.thinking
                    ==> prepared.generation.top_p == bits
            }
        },
{
}

/// Which choices are refused: a model that is not loaded, a conversation together with
/// a response to continue, and a background response that is not to be stored or is to
/// be streamed. Anything else passes.
pub proof fn law_refused_choices(request: CreateRequestView, loaded_model: Seq<char>)
    ensures
        (choice_refusal(request, loaded_model) is Some) == ({
            ||| request.model is Some && request.model != Some(loaded_model)
            ||| request.conversation is Some && request.previous_response_id is Some
            ||| request.background == Some(true) && (request.store == Some(false) || request.stream
                == Some(true))
        }),
        request.model is None && request.conversation is None && request.background != Some(true)
            ==> choice_refusal(request, loaded_model) is None,
{
}

/// A request is accepted exactly where each of its parts is, and what is prepared for
/// it is what each part came to: its tools, its format, its verbosity, its reasoning
/// and its controls. Its verbosity is put into words except under `deepseek`.
pub proof fn law_accepted_request_is_prepared_as_asked(
    request: CreateRequestView,
    loaded_model: Seq<char>,
    profile: ResponsesApi,
    grammars: GrammarsView,
)
    ensures
        ({
            let tools = read_tools(
                request.tools,
                request.tool_choice,
                request.parallel_tool_calls,
                grammars.tools,
            );
            let text = text_effect(request.text, grammars.format);
            let controls = generation_effect(
                request.temperature,
                request.top_p,
                request.max_output_tokens,
            );
            let reasoning = reasoning_effect(request.reasoning, profile);
            &&& (validated(request, loaded_model, profile, grammars) is Ok) == ({
                &&& choice_refusal(request, loaded_model) is None
                &&& tools is Ok
                &&& text is Ok
                &&& controls is Ok
                &&& reasoning is Ok
                &&& prompt_of(request.instructions, request.input) is Ok
                &&& !(tools->Ok_0.offers_tools() && text->Ok_0.format.json_required)
            })
            &&& validated(request, loaded_model, profile, grammars) matches Ok(prepared) ==> {
                &&& prepared.tools == tools->Ok_0
                &&& prepared.format == text->Ok_0.format
                &&& prepared.verbosity == text->Ok_0.verbosity
                &&& prepared.reasoning == reasoning->Ok_0
                &&& prepared.generation_echo == controls->Ok_0.echo
                &&& !(profile is Deepseek) ==> prepared.generation == controls->Ok_0.generation
                &&& prepared.verbosity_directive == if profile is Deepseek {
                    None
                } else {
                    prepared.verbosity.note()
                }
            }
        }),
{
}

/// A low verbosity asks for a concise answer and a high one for a thorough answer; a
/// medium one adds nothing.
pub proof fn law_verbosity_in_words()
    ensures
        Verbosity::Low.note() matches Some(note) && has_text(note, "Be concise."@),
        Verbosity::High.note() matches Some(note) && has_text(note, "Be thorough."@),
        Verbosity::Medium.note() is None,
{
    reveal_strlit("Be concise.");
    reveal_strlit("Be thorough.");
    reveal_strlit("Be concise. Give the shortest complete answer and omit explanation.");
    reveal_strlit("Be thorough. Give a complete answer with explanation and supporting detail.");
    let low = Verbosity::Low.note()->0;
    let high = Verbosity::High.note()->0;
    assert(low.subrange(0, 0int + "Be concise."@.len()) =~= "Be concise."@);
    assert(high.subrange(0, 0int + "Be thorough."@.len()) =~= "Be thorough."@);
}

/// A continued request is told exactly what its items say: those that the response
/// answered, its output and the new input, or those of the conversation and the new
/// input, in this order, under the instructions of the request. Behind them stand the
/// notes, and nothing where there is no note.
pub proof fn law_continued_prompt_is_all_its_items(
    request: CreateRequestView,
    prepared: PreparedView,
    previous: StoredResponseView,
    conversation: ConversationView,
)
    ensures
        ({
            let own = items_of(request.input);
            let answered = outputs_as_input(field_or_null(previous.response, "output"@));
            &&& tells(
                effective(request, prepared, Some(previous), None),
                request,
                prepared,
                previous.input_items + answered + own,
            )
            &&& tells(
                effective(request, prepared, None, Some(conversation)),
                request,
                prepared,
                stored_items(conversation.items) + own,
            )
        }),
{
    let own = items_of(request.input);
    let answered = outputs_as_input(field_or_null(previous.response, "output"@));
    lemma_tells(request, prepared, previous.input_items + answered + own);
    lemma_tells(request, prepared, stored_items(conversation.items) + own);
}

/// The prompt says what the items say under the instructions of the request, and adds
/// nothing but the notes.
pub open spec fn tells(
    prompt: Result<EffectiveView, Seq<char>>,
    request: CreateRequestView,
    prepared: PreparedView,
    items: Seq<JsonView>,
) -> bool {
    let told = match read_input_items(items) {
        Ok(input) => prompt_of(request.instructions, input),
        Err(message) => Err(message),
    };
    match (prompt, told) {
        (Ok(prompt), Ok(told)) => {
            &&& prompt.user == told.user
            &&& told.system.is_prefix_of(prompt.system)
            &&& prompt.system == in_lines(
                told.system,
                prepared.tools,
                prepared.verbosity_directive,
            )
            &&& !prepared.tools.offers_tools() && prepared.verbosity_directive is None
                ==> prompt.system == told.system
        },
        (Err(refused), Err(message)) => refused == message,
        _ => false,
    }
}

proof fn lemma_tells(request: CreateRequestView, prepared: PreparedView, items: Seq<JsonView>)
    ensures
        ({
            let told = match read_input_items(items) {
                Ok(input) => prompt_of(request.instructions, input),
                Err(message) => Err(message),
            };
            match (prompt_of_items(request, prepared, items), told) {
                (Ok(prompt), Ok(told)) => {
                    &&& prompt.user == told.user
                    &&& told.system.is_prefix_of(prompt.system)
                    &&& prompt.system == in_lines(
                        told.system,
                        prepared.tools,
                        prepared.verbosity_directive,
                    )
                    &&& !prepared.tools.offers_tools() && prepared.verbosity_directive is None
                        ==> prompt.system == told.system
                },
                (Err(refused), Err(message)) => refused == message,
                _ => false,
            }
        }),
{
    if let Ok(input) = read_input_items(items) {
        if let Ok(told) = prompt_of(request.instructions, input) {
            lemma_notes(told.system, prepared.tools, prepared.verbosity_directive);
            lemma_in_lines(told.system, prepared.tools, prepared.verbosity_directive);
        }
    }
}

/// A line of its own for a text, where there is one.
pub open spec fn line_of(text: Option<Seq<char>>) -> Seq<Seq<char>> {
    match text {
        Some(text) => seq![text],
        None => Seq::empty(),
    }
}

/// A text, the note of the tools and the directive, each on its own lines. An empty
/// text has none.
pub open spec fn in_lines(
    system: Seq<char>,
    tools: ToolRequestView,
    directive: Option<Seq<char>>,
) -> Seq<char> {
    let start = if system.len() > 0 {
        Some(system)
    } else {
        None
    };
    joined(line_of(start) + line_of(tools.system_note()) + line_of(directive), "\n"@)
}

proof fn lemma_in_lines(
    system: Seq<char>,
    tools: ToolRequestView,
    directive: Option<Seq<char>>,
)
    ensures
        with_notes(system, tools, directive) == in_lines(system, tools, directive),
{
    let start = if system.len() > 0 {
        Some(system)
    } else {
        None
    };
    let note = tools.system_note();
    let first = line_of(start) + line_of(note);
    let told = with_note(system, note);
    if note is Some {
        reveal_strlit("Tools:\n");
        assert(note->0.len() > 0);
    }
    assert(joined(first, "\n"@) == told && (first.len() > 0) == (told.len() > 0)) by {
        if note is Some && start is Some {
            assert(first.drop_last() =~= seq![system]);
            assert(first.last() == note->0);
            assert(joined(seq![system], "\n"@) == system);
            assert(joined(first, "\n"@) == system + "\n"@ + note->0);
        } else if note is Some {
            assert(first =~= seq![note->0]);
        } else if start is Some {
            assert(first =~= seq![system]);
        } else {
            assert(first =~= Seq::empty());
            assert(system =~= Seq::empty());
        }
    }
    let whole = first + line_of(directive);
    if let Some(last) = directive {
        assert(whole.drop_last() =~= first);
        assert(whole.last() == last);
        if first.len() == 0 {
            assert(whole =~= seq![last]);
        }
    } else {
        assert(whole =~= first);
    }
}

/// The notes stand behind the prompt of a request, each on its own lines, first that of
/// the tools and then the directive, and nothing else is added.
pub proof fn law_notes_stand_on_their_own_lines(
    request: CreateRequestView,
    loaded_model: Seq<char>,
    profile: ResponsesApi,
    grammars: GrammarsView,
)
    ensures
        validated(request, loaded_model, profile, grammars) matches Ok(prepared) ==> prepared.system
            == in_lines(
            prompt_of(request.instructions, request.input)->Ok_0.system,
            prepared.tools,
            prepared.verbosity_directive,
        ),
{
    if let Ok(prepared) = validated(request, loaded_model, profile, grammars) {
        lemma_in_lines(
            prompt_of(request.instructions, request.input)->Ok_0.system,
            prepared.tools,
            prepared.verbosity_directive,
        );
    }
}

} // verus!
