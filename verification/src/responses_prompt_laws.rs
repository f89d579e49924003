//! What holds of prompts: what the items of an input say reaches the model, all of it
//! and in its order, also where a request continues a response or a conversation.

use vstd::prelude::*;

use crate::json::{first_unknown, no_fields, unknown_keys, JsonView};
use crate::json_text::json_text;
use crate::responses_input::{
    given_text,
    opening,
    part_texter,
    prompt_line,
    prompt_liner,
    prompt_of,
    system_line,
    text_of_message,
    text_of_reasoning,
    trace_texter,
    user_line,
    ContentView,
    FunctionCallOutputView,
    FunctionCallView,
    InputItemView,
    InputView,
    MessageView,
    PartView,
    PromptLine,
    PromptTexts,
    ReasoningView,
};
use crate::seqs::{
    filter_map,
    lemma_filter_map_append,
    lemma_map_one,
    lemma_try_map_ok,
    lemma_try_map_parts,
    try_map,
};
use crate::text::law_joining_keeps_every_part;

verus! {

/// One text, a line break and another.
pub open spec fn two_lines(first: Seq<char>, second: Seq<char>) -> Seq<char> {
    first + "\n"@ + second
}

/// A message of parts.
pub open spec fn parts_message(role: Seq<char>, parts: Seq<PartView>) -> MessageView {
    MessageView { role, content: ContentView::Parts(parts) }
}

proof fn lemma_roles()
    ensures
        "user"@.len() == 4,
        "system"@.len() == 6,
        "assistant"@.len() == 9 && "assistant"@[0] == 'a',
        "developer"@.len() == 9 && "developer"@[0] == 'd',
{
    reveal_strlit("user");
    reveal_strlit("assistant");
    reveal_strlit("system");
    reveal_strlit("developer");
}

proof fn lemma_extra(extra: Map<Seq<char>, JsonView>)
    ensures
        (first_unknown(extra, Seq::empty()) is None) == (extra == no_fields()),
{
    if extra == no_fields() {
        assert forall|key: Seq<char>| !unknown_keys(extra, Seq::empty()).contains(key) by {}
    } else if first_unknown(extra, Seq::empty()) is None {
        assert forall|key: Seq<char>| !extra.contains_key(key) by {
            assert(!unknown_keys(extra, Seq::empty()).contains(key));
        }
        assert(extra =~= no_fields());
    }
}

/// The text of a message is that of all its parts, in their order, with a line break
/// between neighbours: the parts of two messages in one give the text of the one, a
/// line break and the text of the other. Where one of the two is refused, so is the
/// whole, for the same reason.
pub proof fn law_message_text_is_all_its_parts(
    role: Seq<char>,
    first: Seq<PartView>,
    second: Seq<PartView>,
)
    requires
        first.len() > 0,
        second.len() > 0,
    ensures
        text_of_message(parts_message(role, first + second)) == match (
            text_of_message(parts_message(role, first)),
            text_of_message(parts_message(role, second)),
        ) {
            (Ok(one), Ok(two)) => Ok(two_lines(one, two)),
            (Err(error), _) => Err(error),
            (_, Err(error)) => Err(error),
        },
{
    lemma_try_map_parts(part_texter(), first, second);
    lemma_try_map_ok(part_texter(), first);
    lemma_try_map_ok(part_texter(), second);
    if try_map(part_texter(), first) is Ok && try_map(part_texter(), second) is Ok {
        law_joining_keeps_every_part(
            try_map(part_texter(), first)->Ok_0,
            try_map(part_texter(), second)->Ok_0,
            Seq::empty(),
            "\n"@,
        );
    }
}

/// The text of a message with one part is the text of that part. It is refused where
/// the part is no text part, has no text or has any other field; a message without
/// parts is empty; a content that is a text is that text. Only the four roles are
/// accepted.
pub proof fn law_text_of_one_part(role: Seq<char>, part: PartView, text: Seq<char>)
    ensures
        ({
            let known = role == "user"@ || role == "assistant"@ || role == "system"@ || role
                == "developer"@;
            let accepted = known && (part.kind == "input_text"@ || part.kind == "output_text"@)
                && part.text is Some && part.extra == no_fields();
            let read = text_of_message(parts_message(role, seq![part]));
            &&& (read is Ok) == accepted
            &&& accepted ==> read == Ok::<Seq<char>, Seq<char>>(part.text->0)
            &&& text_of_message(MessageView { role, content: ContentView::Text(text) }) is Ok
                == known
            &&& known ==> text_of_message(MessageView { role, content: ContentView::Text(text) })
                == Ok::<Seq<char>, Seq<char>>(text)
            &&& known ==> text_of_message(parts_message(role, Seq::empty())) == Ok::<
                Seq<char>,
                Seq<char>,
            >(Seq::empty())
        }),
{
    lemma_roles();
    lemma_extra(part.extra);
    lemma_map_one(part_texter(), |part: PartView| None::<Seq<char>>, part);
    law_joining_keeps_every_part(
        Seq::empty(),
        Seq::empty(),
        match part.text {
            Some(text) => text,
            None => Seq::empty(),
        },
        "\n"@,
    );
}

/// A reasoning item of parts.
pub open spec fn trace_of(parts: Seq<PartView>) -> ReasoningView {
    ReasoningView {
        kind: "reasoning"@,
        id: None,
        status: None,
        summary: None,
        content: Some(parts),
        encrypted_content: None,
    }
}

/// The text of a reasoning item is that of all its parts, in their order, with a line
/// break between neighbours; a part without a text adds nothing. What else the item
/// holds makes no difference.
pub proof fn law_trace_is_all_its_parts(
    first: Seq<PartView>,
    second: Seq<PartView>,
    part: PartView,
    item: ReasoningView,
)
    requires
        text_of_reasoning(trace_of(first)) is Ok,
        text_of_reasoning(trace_of(second)) is Ok,
        exists|i: int| 0 <= i < first.len() && (#[trigger] first[i]).text is Some,
        exists|i: int| 0 <= i < second.len() && (#[trigger] second[i]).text is Some,
    ensures
        text_of_reasoning(trace_of(first + second)) == Ok::<Seq<char>, Seq<char>>(
            two_lines(
                text_of_reasoning(trace_of(first))->Ok_0,
                text_of_reasoning(trace_of(second))->Ok_0,
            ),
        ),
        ({
            let read = text_of_reasoning(trace_of(seq![part]));
            let accepted = (part.kind == "reasoning_text"@ || part.kind == "output_text"@)
                && part.extra == no_fields();
            &&& (read is Ok) == accepted
            &&& accepted ==> read == Ok::<Seq<char>, Seq<char>>(
                match part.text {
                    Some(text) => text,
                    None => Seq::empty(),
                },
            )
        }),
        part.text is None && text_of_reasoning(trace_of(seq![part])) is Ok ==> text_of_reasoning(
            trace_of(first.push(part)),
        ) == text_of_reasoning(trace_of(first)),
        text_of_reasoning(item) == match item.content {
            Some(parts) => text_of_reasoning(trace_of(parts)),
            None => Ok(Seq::empty()),
        },
{
    let f = trace_texter();
    let g = given_text();
    lemma_try_map_parts(f, first, second);
    lemma_try_map_ok(f, first);
    lemma_try_map_ok(f, second);
    let one = try_map(f, first)->Ok_0;
    let two = try_map(f, second)->Ok_0;
    lemma_filter_map_append(g, one, two);
    let i = choose|i: int| 0 <= i < first.len() && (#[trigger] first[i]).text is Some;
    let j = choose|j: int| 0 <= j < second.len() && (#[trigger] second[j]).text is Some;
    assert(f(first[i]) == Ok::<Option<Seq<char>>, Seq<char>>(one[i]));
    assert(f(second[j]) == Ok::<Option<Seq<char>>, Seq<char>>(two[j]));
    crate::seqs::law_mapping_keeps_the_order(
        |text: Option<Seq<char>>| Ok::<Seq<char>, Seq<char>>(Seq::empty()),
        g,
        one,
        i,
    );
    crate::seqs::law_mapping_keeps_the_order(
        |text: Option<Seq<char>>| Ok::<Seq<char>, Seq<char>>(Seq::empty()),
        g,
        two,
        j,
    );
    law_joining_keeps_every_part(
        filter_map(g, one),
        filter_map(g, two),
        match part.text {
            Some(text) => text,
            None => Seq::empty(),
        },
        "\n"@,
    );
    lemma_extra(part.extra);
    let lone = seq![part];
    lemma_map_one(f, |part: PartView| None::<Option<Seq<char>>>, part);
    if f(part) is Ok {
        let mapped = f(part)->Ok_0;
        lemma_map_one(
            |text: Option<Seq<char>>| Ok::<Seq<char>, Seq<char>>(Seq::empty()),
            g,
            mapped,
        );
        if part.text is None {
            lemma_try_map_parts(f, first, lone);
            assert(first + lone =~= first.push(part));
            lemma_filter_map_append(g, one, seq![mapped]);
            assert(filter_map(g, one) + Seq::<Seq<char>>::empty() =~= filter_map(g, one));
        }
    }
}

/// What an item adds to the prompt: a message of the system or the developer adds its
/// text to the system text, any other message to the user text. A call is told with its
/// name, its identifier and its arguments, `{}` where it has none, and a result with
/// the identifier of its call and what it is, a text as it stands and anything else as
/// JSON. A reasoning item adds its trace where it has one.
pub proof fn law_what_an_item_says(
    message: MessageView,
    call: FunctionCallView,
    output: FunctionCallOutputView,
    reasoning: ReasoningView,
)
    ensures
        prompt_line(InputItemView::Message(message)) == match text_of_message(message) {
            Ok(text) => Ok(
                if message.role == "system"@ || message.role == "developer"@ {
                    PromptLine::System(text)
                } else {
                    PromptLine::User(text)
                },
            ),
            Err(error) => Err(error),
        },
        prompt_line(InputItemView::FunctionCall(call)) == Ok::<PromptLine, Seq<char>>(
            PromptLine::User(
                "Tool call `"@ + call.name + "` ("@ + call.call_id + ") with arguments "@
                    + if call.arguments is Some {
                    call.arguments->0
                } else {
                    "{}"@
                },
            ),
        ),
        prompt_line(InputItemView::FunctionCallOutput(output)) == Ok::<PromptLine, Seq<char>>(
            PromptLine::User(
                "Tool result for `"@ + output.call_id + "`: "@ + if output.output is None {
                    Seq::empty()
                } else if output.output->0 is Str {
                    output.output->0->Str_0
                } else {
                    json_text(output.output->0)
                },
            ),
        ),
        prompt_line(InputItemView::Reasoning(reasoning)) == match text_of_reasoning(reasoning) {
            Ok(text) => Ok(
                if text == Seq::<char>::empty() {
                    PromptLine::Nothing
                } else {
                    PromptLine::User(text)
                },
            ),
            Err(error) => Err(error),
        },
{
    if let Ok(text) = text_of_reasoning(reasoning) {
        if text.len() == 0 {
            assert(text =~= Seq::<char>::empty());
        }
    }
}

/// Some item adds a line to the system text.
pub open spec fn speaks_to_system(items: Seq<InputItemView>) -> bool {
    exists|i: int| 0 <= i < items.len() && prompt_line(#[trigger] items[i])->Ok_0 is System
}

/// Some item adds a line to the user text.
pub open spec fn speaks_to_user(items: Seq<InputItemView>) -> bool {
    exists|i: int| 0 <= i < items.len() && prompt_line(#[trigger] items[i])->Ok_0 is User
}

/// The text where it is said, and where it is not, nothing.
pub open spec fn glued(
    first_said: bool,
    first: Seq<char>,
    second_said: bool,
    second: Seq<char>,
) -> Seq<char> {
    if first_said && second_said {
        two_lines(first, second)
    } else if first_said {
        first
    } else if second_said {
        second
    } else {
        Seq::empty()
    }
}

proof fn lemma_lines(items: Seq<InputItemView>)
    requires
        try_map(prompt_liner(), items) is Ok,
    ensures
        (filter_map(system_line(), try_map(prompt_liner(), items)->Ok_0).len() > 0)
            == speaks_to_system(items),
        (filter_map(user_line(), try_map(prompt_liner(), items)->Ok_0).len() > 0)
            == speaks_to_user(items),
    decreases items.len(),
{
    let f = prompt_liner();
    lemma_try_map_ok(f, items);
    if items.len() > 0 {
        let front = items.drop_last();
        lemma_lines(front);
        let lines = try_map(f, items)->Ok_0;
        assert(lines.drop_last() =~= try_map(f, front)->Ok_0);
        assert(f(items[items.len() - 1]) == Ok::<PromptLine, Seq<char>>(lines.last()));
        assert(prompt_line(items.last()) == Ok::<PromptLine, Seq<char>>(lines.last()));
        assert(speaks_to_system(items) == (speaks_to_system(front) || lines.last() is System)) by {
            if speaks_to_system(front) {
                let i = choose|i: int|
                    0 <= i < front.len() && prompt_line(#[trigger] front[i])->Ok_0 is System;
                assert(items[i] == front[i]);
            }
            if speaks_to_system(items) {
                let i = choose|i: int|
                    0 <= i < items.len() && prompt_line(#[trigger] items[i])->Ok_0 is System;
                if i < front.len() {
                    assert(items[i] == front[i]);
                }
            }
        }
        assert(speaks_to_user(items) == (speaks_to_user(front) || lines.last() is User)) by {
            if speaks_to_user(front) {
                let i = choose|i: int|
                    0 <= i < front.len() && prompt_line(#[trigger] front[i])->Ok_0 is User;
                assert(items[i] == front[i]);
            }
            if speaks_to_user(items) {
                let i = choose|i: int|
                    0 <= i < items.len() && prompt_line(#[trigger] items[i])->Ok_0 is User;
                if i < front.len() {
                    assert(items[i] == front[i]);
                }
            }
        }
    }
}

/// The prompt follows the items: of two lists, one behind the other, it says what the
/// first one says and then, on a line of its own, what the second one says, in the
/// system text as in the user text. It is refused where one of them is, for the reason
/// that comes first.
pub proof fn law_prompt_follows_the_items(
    instructions: Option<Seq<char>>,
    first: Seq<InputItemView>,
    second: Seq<InputItemView>,
)
    ensures
        prompt_of(instructions, InputView::Messages(first + second)) == match (
            prompt_of(instructions, InputView::Messages(first)),
            prompt_of(None, InputView::Messages(second)),
        ) {
            (Err(error), _) => Err(error),
            (_, Err(error)) => Err(error),
            (Ok(one), Ok(two)) => Ok(
                PromptTexts {
                    system: glued(
                        instructions is Some || speaks_to_system(first),
                        one.system,
                        speaks_to_system(second),
                        two.system,
                    ),
                    user: glued(
                        speaks_to_user(first),
                        one.user,
                        speaks_to_user(second),
                        two.user,
                    ),
                },
            ),
        },
{
    let f = prompt_liner();
    lemma_try_map_parts(f, first, second);
    if try_map(f, first) is Ok && try_map(f, second) is Ok {
        let one = try_map(f, first)->Ok_0;
        let two = try_map(f, second)->Ok_0;
        lemma_lines(first);
        lemma_lines(second);
        lemma_filter_map_append(system_line(), one, two);
        lemma_filter_map_append(user_line(), one, two);
        let start = opening(instructions);
        let system_one = start + filter_map(system_line(), one);
        let system_two = filter_map(system_line(), two);
        assert(start + (filter_map(system_line(), one) + system_two) =~= system_one + system_two);
        assert(opening(None) + system_two =~= system_two);
        let user_one = filter_map(user_line(), one);
        let user_two = filter_map(user_line(), two);
        law_joining_keeps_every_part(system_one, system_two, Seq::empty(), "\n"@);
        law_joining_keeps_every_part(user_one, user_two, Seq::empty(), "\n"@);
        if system_one.len() == 0 {
            assert(system_one + system_two =~= system_two);
        }
        if system_two.len() == 0 {
            assert(system_one + system_two =~= system_one);
        }
        if user_one.len() == 0 {
            assert(user_one + user_two =~= user_two);
        }
        if user_two.len() == 0 {
            assert(user_one + user_two =~= user_one);
        }
    }
}

/// The prompt of one item is what that item says, behind the instructions where there
/// are any. A text is the user text, as it stands; the instructions alone are the
/// system text, as they stand, and without either the texts are empty.
pub proof fn law_prompt_of_one_item(
    instructions: Option<Seq<char>>,
    item: InputItemView,
    text: Seq<char>,
)
    ensures
        ({
            let start = match instructions {
                Some(instructions) => instructions,
                None => Seq::empty(),
            };
            &&& prompt_of(instructions, InputView::Messages(seq![item])) == match prompt_line(
                item,
            ) {
                Err(error) => Err(error),
                Ok(PromptLine::System(line)) => Ok(
                    PromptTexts {
                        system: if instructions is Some {
                            two_lines(start, line)
                        } else {
                            line
                        },
                        user: Seq::empty(),
                    },
                ),
                Ok(PromptLine::User(line)) => Ok(PromptTexts { system: start, user: line }),
                Ok(PromptLine::Nothing) => Ok(PromptTexts { system: start, user: Seq::empty() }),
            }
            &&& prompt_of(instructions, InputView::Text(text)) == Ok::<PromptTexts, Seq<char>>(
                PromptTexts { system: start, user: text },
            )
            &&& prompt_of(instructions, InputView::Messages(Seq::empty())) == Ok::<
                PromptTexts,
                Seq<char>,
            >(PromptTexts { system: start, user: Seq::empty() })
        }),
{
    let f = prompt_liner();
    lemma_map_one(f, |item: InputItemView| None::<PromptLine>, item);
    let start = opening(instructions);
    let given = match instructions {
        Some(instructions) => instructions,
        None => Seq::empty(),
    };
    law_joining_keeps_every_part(Seq::empty(), Seq::empty(), given, "\n"@);
    assert(start + Seq::<Seq<char>>::empty() =~= start);
    if let Ok(line) = prompt_line(item) {
        lemma_map_one(|line: PromptLine| Ok::<Seq<char>, ()>(Seq::empty()), system_line(), line);
        lemma_map_one(|line: PromptLine| Ok::<Seq<char>, ()>(Seq::empty()), user_line(), line);
        let said = match line {
            PromptLine::System(text) => text,
            PromptLine::User(text) => text,
            PromptLine::Nothing => Seq::empty(),
        };
        law_joining_keeps_every_part(seq![given], seq![said], said, "\n"@);
        law_joining_keeps_every_part(seq![given], seq![said], given, "\n"@);
        assert(seq![given] + seq![said] =~= seq![given, said]);
        assert(opening(None) + seq![said] =~= seq![said]);
        if instructions is Some {
            assert(start =~= seq![given]);
        } else {
            assert(start =~= Seq::empty());
        }
        assert(Seq::<Seq<char>>::empty() + seq![said] =~= seq![said]);
    }
}

} // verus!
