//! What is taken out of a generated text before it is an answer.

use vstd::prelude::*;

use crate::text::{
    after_blanks,
    find,
    first_at,
    has_prefix,
    law_removal_takes_the_pattern_alone,
    lemma_first_from,
    lemma_trimmed_start,
    occurs_at,
    remove_all,
    removed_all,
    skip_blanks,
    slice,
    starts_with,
    trim,
    trim_start,
    trimmed,
    trimmed_start,
};

verus! {

/// A generated text in two parts: the answer and the reasoning trace.
pub struct SplitText {
    pub text: Seq<char>,
    pub trace: Seq<char>,
}

/// The text behind the first occurrence of a marker, and the text up to its end.
pub open spec fn split_behind(text: Seq<char>, marker: Seq<char>) -> Option<
    (Seq<char>, Seq<char>),
> {
    match first_at(text, marker) {
        Some(at) => Some(
            (
                text.subrange(at + marker.len(), text.len() as int),
                text.subrange(0, at + marker.len()),
            ),
        ),
        None => None,
    }
}

/// A generated text without its thinking block. A block that opens the text is
/// always taken out; where thinking was asked for, so is everything up to a bare
/// close marker. A block without an end leaves nothing.
pub open spec fn without_thinking(output: Seq<char>, thinking: bool) -> SplitText {
    let start = trimmed_start(output);
    if has_prefix(start, "<think>"@) {
        let rest = start.subrange("<think>"@.len() as int, start.len() as int);
        match split_behind(rest, "</think>"@) {
            Some((text, block)) => SplitText {
                text: trimmed_start(text),
                trace: "<think>"@ + block,
            },
            None => SplitText { text: Seq::empty(), trace: start },
        }
    } else {
        match split_behind(output, "</think>"@) {
            Some((text, block)) => if thinking {
                SplitText { text: trimmed_start(text), trace: block }
            } else {
                SplitText { text: output, trace: Seq::empty() }
            },
            None => SplitText { text: output, trace: Seq::empty() },
        }
    }
}

/// A generated text without its thought channel.
pub open spec fn without_channel(split: SplitText) -> SplitText {
    match split_behind(split.text, "<channel|>"@) {
        Some((text, block)) => SplitText { text, trace: split.trace + block },
        None => if has_prefix(split.text, "<|channel>thought"@) {
            SplitText {
                text: after_blanks(
                    split.text.subrange(
                        "<|channel>thought"@.len() as int,
                        split.text.len() as int,
                    ),
                ),
                trace: split.trace + "<|channel>thought"@,
            }
        } else {
            split
        },
    }
}

/// The answer and the trace of a generated text. The answer has no end-of-turn
/// marker and no white space around it.
pub open spec fn cleaned(output: Seq<char>, thinking: bool) -> SplitText {
    let split = without_channel(without_thinking(output, thinking));
    SplitText {
        text: trimmed(removed_all(split.text, "<end_of_turn>"@)),
        trace: split.trace,
    }
}

fn split_at_marker(text: &str, marker: &str) -> (parts: Option<(String, String)>)
    ensures
        match parts {
            Some((rest, block)) => split_behind(text@, marker@) == Some((rest@, block@)),
            None => split_behind(text@, marker@) is None,
        },
{
    match find(text, marker) {
        Some(at) => {
            let total: usize = text.unicode_len();
            let end: usize = at + marker.unicode_len();
            Some((slice(text, end, total), slice(text, 0, end)))
        },
        None => None,
    }
}

/// Takes the thinking block out of a generated text: the rest and the block.
pub fn strip_thinking_block(output: String, thinking: bool) -> (split: (String, String))
    ensures
        without_thinking(output@, thinking) == (SplitText { text: split.0@, trace: split.1@ }),
{
    let start = trim_start(output.as_str());
    if starts_with(start.as_str(), "<think>") {
        let total: usize = start.as_str().unicode_len();
        let rest = slice(start.as_str(), "<think>".unicode_len(), total);
        return match split_at_marker(rest.as_str(), "</think>") {
            Some((text, block)) => (
                trim_start(text.as_str()),
                "<think>".to_owned().concat(block.as_str()),
            ),
            None => (String::new(), start),
        };
    }
    if thinking {
        if let Some((text, block)) = split_at_marker(output.as_str(), "</think>") {
            return (trim_start(text.as_str()), block);
        }
    }
    (output, String::new())
}

/// Cleans a generated text: the answer and the reasoning trace that was taken out
/// of it. A text without an answer is an error.
pub fn clean_output(output: String, thinking: bool) -> (read: Result<(String, String), String>)
    ensures
        match read {
            Ok((text, trace)) => cleaned(output@, thinking) == (SplitText {
                text: text@,
                trace: trace@,
            }) && text@.len() > 0,
            Err(message) => cleaned(output@, thinking).text.len() == 0 && message@
                == "Model produced empty output"@,
        },
{
    let (text, trace) = strip_thinking_block(output, thinking);
    let mut trace = trace;
    let text = match split_at_marker(text.as_str(), "<channel|>") {
        Some((rest, block)) => {
            trace.append(block.as_str());
            rest
        },
        None => if starts_with(text.as_str(), "<|channel>thought") {
            trace.append("<|channel>thought");
            let total: usize = text.as_str().unicode_len();
            let rest = slice(text.as_str(), "<|channel>thought".unicode_len(), total);
            skip_blanks(rest.as_str())
        } else {
            text
        },
    };
    proof {
        reveal_strlit("<end_of_turn>");
    }
    let text = remove_all(text.as_str(), "<end_of_turn>");
    let text = trim(text.as_str());
    if text.as_str().is_empty() {
        return Err("Model produced empty output".to_owned());
    }
    Ok((text, trace))
}

/// The text has no occurrence of the marker.
pub open spec fn is_free_of(text: Seq<char>, marker: Seq<char>) -> bool {
    forall|at: int| !#[trigger] occurs_at(text, marker, at)
}

/// Behind a text without the close marker, the marker is found where it stands.
proof fn lemma_first_close(before: Seq<char>, after: Seq<char>)
    requires
        is_free_of(before, "</think>"@),
    ensures
        first_at(before + "</think>"@ + after, "</think>"@) == Some(before.len() as int),
{
    reveal_strlit("</think>");
    let marker = "</think>"@;
    let text = before + marker + after;
    assert(text.subrange(before.len() as int, (before.len() + marker.len()) as int) =~= marker);
    assert(occurs_at(text, marker, before.len() as int));
    lemma_first_from(text, marker, 0);
    let at = first_at(text, marker);
    assert forall|i: int| 0 <= i < before.len() implies !#[trigger] occurs_at(text, marker, i) by {
        if occurs_at(text, marker, i) {
            let here = text.subrange(i, i + marker.len());
            if i + marker.len() <= before.len() {
                assert(before.subrange(i, i + marker.len()) =~= here);
                assert(occurs_at(before, marker, i));
            } else {
                let k = before.len() - i;
                assert(here[k] == text[before.len() as int]);
                assert(text[before.len() as int] == '<');
                assert(marker[k] != '<');
            }
        }
    }
}

/// A reasoning trace never reaches the answer: a leading block is taken out whole,
/// whatever it says and whether or not thinking was asked for, and the answer is
/// what stands behind it.
pub proof fn law_leading_block_is_taken_out(
    reasoning: Seq<char>,
    answer: Seq<char>,
    thinking: bool,
)
    requires
        is_free_of(reasoning, "</think>"@),
    ensures
        without_thinking("<think>"@ + reasoning + "</think>"@ + answer, thinking) == (SplitText {
            text: trimmed_start(answer),
            trace: "<think>"@ + reasoning + "</think>"@,
        }),
{
    reveal_strlit("<think>");
    reveal_strlit("</think>");
    let open_marker = "<think>"@;
    let close_marker = "</think>"@;
    let output = open_marker + reasoning + close_marker + answer;
    assert(output[0] == '<');
    assert(!crate::text::is_white_space('<'));
    assert(trimmed_start(output) == output);
    assert(output.subrange(0, open_marker.len() as int) =~= open_marker);
    assert(has_prefix(output, open_marker));
    let rest = output.subrange(open_marker.len() as int, output.len() as int);
    assert(rest =~= reasoning + close_marker + answer);
    lemma_first_close(reasoning, answer);
    assert(rest.subrange((reasoning.len() + close_marker.len()) as int, rest.len() as int) =~= answer);
    assert(rest.subrange(0, (reasoning.len() + close_marker.len()) as int) =~= reasoning + close_marker);
    assert(open_marker + (reasoning + close_marker) =~= open_marker + reasoning + close_marker);
}

/// Where thinking was asked for, everything up to the first close marker is taken
/// out, and later markers are text.
pub proof fn law_bare_close_marker_ends_the_trace(reasoning: Seq<char>, answer: Seq<char>)
    requires
        is_free_of(reasoning, "</think>"@),
        !has_prefix(trimmed_start(reasoning + "</think>"@ + answer), "<think>"@),
    ensures
        without_thinking(reasoning + "</think>"@ + answer, true) == (SplitText {
            text: trimmed_start(answer),
            trace: reasoning + "</think>"@,
        }),
{
    reveal_strlit("</think>");
    let marker = "</think>"@;
    let output = reasoning + marker + answer;
    lemma_first_close(reasoning, answer);
    assert(output.subrange((reasoning.len() + marker.len()) as int, output.len() as int) =~= answer);
    assert(output.subrange(0, (reasoning.len() + marker.len()) as int) =~= reasoning + marker);
}

/// Where thinking was not asked for, a text that does not begin with a block is
/// kept as it is.
pub proof fn law_text_without_a_block_is_kept(output: Seq<char>)
    requires
        !has_prefix(trimmed_start(output), "<think>"@),
    ensures
        without_thinking(output, false) == (SplitText { text: output, trace: Seq::empty() }),
{
}

/// Behind a text without the marker, a marker whose first character stands in it once
/// is found where it stands.
proof fn lemma_first_marker(before: Seq<char>, after: Seq<char>, marker: Seq<char>)
    requires
        marker.len() > 0,
        forall|k: int| 0 < k < marker.len() ==> #[trigger] marker[k] != marker[0],
        is_free_of(before, marker),
    ensures
        first_at(before + marker + after, marker) == Some(before.len() as int),
        forall|at: int|
            0 <= at < before.len() ==> !#[trigger] occurs_at(before + marker + after, marker, at),
{
    let text = before + marker + after;
    assert(text.subrange(before.len() as int, (before.len() + marker.len()) as int) =~= marker);
    assert(occurs_at(text, marker, before.len() as int));
    lemma_first_from(text, marker, 0);
    assert forall|i: int| 0 <= i < before.len() implies !#[trigger] occurs_at(text, marker, i) by {
        if occurs_at(text, marker, i) {
            let here = text.subrange(i, i + marker.len());
            if i + marker.len() <= before.len() {
                assert(before.subrange(i, i + marker.len()) =~= here);
                assert(occurs_at(before, marker, i));
            } else {
                let k = before.len() - i;
                assert(here[k] == text[before.len() as int]);
                assert(text[before.len() as int] == marker[0]);
                assert(marker[k] != marker[0]);
            }
        }
    }
}

/// A thinking block that does not end leaves no answer, and all of it is the trace.
pub proof fn law_open_block_leaves_no_answer(reasoning: Seq<char>, thinking: bool)
    requires
        is_free_of(reasoning, "</think>"@),
    ensures
        cleaned("<think>"@ + reasoning, thinking) == (SplitText {
            text: Seq::empty(),
            trace: "<think>"@ + reasoning,
        }),
{
    reveal_strlit("<think>");
    reveal_strlit("</think>");
    reveal_strlit("<channel|>");
    reveal_strlit("<|channel>thought");
    reveal_strlit("<end_of_turn>");
    let marker = "<think>"@;
    let output = marker + reasoning;
    assert(output[0] == '<');
    assert(!crate::text::is_white_space('<'));
    assert(trimmed_start(output) == output);
    assert(output.subrange(0, marker.len() as int) =~= marker);
    assert(output.subrange(marker.len() as int, output.len() as int) =~= reasoning);
    lemma_first_from(reasoning, "</think>"@, 0);
    let nothing = Seq::<char>::empty();
    lemma_first_from(nothing, "<channel|>"@, 0);
    assert(!has_prefix(nothing, "<|channel>thought"@));
    law_removal_takes_the_pattern_alone(nothing, nothing, "<end_of_turn>"@);
    assert(trimmed(nothing) == nothing);
}

/// A closed thought channel never reaches the answer: it goes to the trace with its
/// end, behind what is there, and the answer is what stands behind it.
pub proof fn law_channel_is_taken_out(thought: Seq<char>, answer: Seq<char>, trace: Seq<char>)
    requires
        is_free_of(thought, "<channel|>"@),
    ensures
        without_channel(
            (SplitText { text: thought + "<channel|>"@ + answer, trace }),
        ) == (SplitText { text: answer, trace: trace + (thought + "<channel|>"@) }),
{
    reveal_strlit("<channel|>");
    let marker = "<channel|>"@;
    lemma_first_marker(thought, answer, marker);
    let text = thought + marker + answer;
    let end = (thought.len() + marker.len()) as int;
    assert(text.subrange(end, text.len() as int) =~= answer);
    assert(text.subrange(0, end) =~= thought + marker);
}

/// An open thought channel at the start of a text loses its marker and the blanks
/// behind it, and the rest is the answer.
pub proof fn law_open_channel_is_taken_out(
    blanks: Seq<char>,
    answer: Seq<char>,
    trace: Seq<char>,
)
    requires
        forall|i: int| 0 <= i < blanks.len() ==> #[trigger] blanks[i] == '\n' || blanks[i] == ' ',
        answer.len() > 0 ==> answer[0] != '\n' && answer[0] != ' ',
        is_free_of("<|channel>thought"@ + blanks + answer, "<channel|>"@),
    ensures
        without_channel(
            (SplitText { text: "<|channel>thought"@ + blanks + answer, trace }),
        ) == (SplitText { text: answer, trace: trace + "<|channel>thought"@ }),
{
    reveal_strlit("<|channel>thought");
    let marker = "<|channel>thought"@;
    let text = marker + blanks + answer;
    lemma_first_from(text, "<channel|>"@, 0);
    assert(text.subrange(0, marker.len() as int) =~= marker);
    assert(text.subrange(marker.len() as int, text.len() as int) =~= blanks + answer);
    lemma_after_blanks(blanks, answer);
}

proof fn lemma_after_blanks(blanks: Seq<char>, answer: Seq<char>)
    requires
        forall|i: int| 0 <= i < blanks.len() ==> #[trigger] blanks[i] == '\n' || blanks[i] == ' ',
        answer.len() > 0 ==> answer[0] != '\n' && answer[0] != ' ',
    ensures
        after_blanks(blanks + answer) == answer,
    decreases blanks.len(),
{
    let text = blanks + answer;
    if blanks.len() > 0 {
        let rest = blanks.subrange(1, blanks.len() as int);
        assert(text[0] == blanks[0]);
        assert(text.subrange(1, text.len() as int) =~= rest + answer);
        lemma_after_blanks(rest, answer);
    } else {
        assert(text =~= answer);
    }
}

/// The text has none of the markers of a thinking block or a thought channel.
pub open spec fn is_plain(text: Seq<char>) -> bool {
    &&& is_free_of(text, "<think>"@)
    &&& is_free_of(text, "</think>"@)
    &&& is_free_of(text, "<channel|>"@)
    &&& is_free_of(text, "<|channel>thought"@)
}

/// A generated text without thinking and channel is the answer, without a trace: but
/// for end-of-turn markers and the white space around it nothing is taken out of it.
pub proof fn law_plain_text_is_the_answer(text: Seq<char>, more: Seq<char>, thinking: bool)
    ensures
        is_plain(text) && is_free_of(text, "<end_of_turn>"@) ==> cleaned(text, thinking) == (
        SplitText { text: trimmed(text), trace: Seq::empty() }),
        is_plain(text + "<end_of_turn>"@ + more) && is_free_of(text, "<end_of_turn>"@)
            && is_free_of(more, "<end_of_turn>"@) ==> cleaned(
            text + "<end_of_turn>"@ + more,
            thinking,
        ) == (SplitText { text: trimmed(text + more), trace: Seq::empty() }),
{
    if is_plain(text) {
        lemma_plain(text, thinking);
    }
    if is_plain(text + "<end_of_turn>"@ + more) {
        lemma_plain(text + "<end_of_turn>"@ + more, thinking);
    }
    lemma_end_of_turn(text, more);
}

proof fn lemma_end_of_turn(text: Seq<char>, more: Seq<char>)
    ensures
        is_free_of(text, "<end_of_turn>"@) ==> removed_all(text, "<end_of_turn>"@) == text,
        is_free_of(text, "<end_of_turn>"@) && is_free_of(more, "<end_of_turn>"@) ==> removed_all(
            text + "<end_of_turn>"@ + more,
            "<end_of_turn>"@,
        ) == text + more,
{
    let marker = "<end_of_turn>"@;
    assert(marker.len() == 13 && forall|k: int|
        0 < k < marker.len() ==> #[trigger] marker[k] != marker[0]) by {
        reveal_strlit("<end_of_turn>");
    }
    law_removal_takes_the_pattern_alone(text, more, marker);
    law_removal_takes_the_pattern_alone(more, text, marker);
    if is_free_of(text, marker) {
        lemma_first_marker(text, more, marker);
    }
}

proof fn lemma_plain(text: Seq<char>, thinking: bool)
    requires
        is_plain(text),
    ensures
        cleaned(text, thinking) == (SplitText {
            text: trimmed(removed_all(text, "<end_of_turn>"@)),
            trace: Seq::empty(),
        }),
{
    lemma_first_from(text, "</think>"@, 0);
    lemma_first_from(text, "<channel|>"@, 0);
    assert(!occurs_at(text, "<|channel>thought"@, 0));
    let from = lemma_trimmed_start(text);
    let start = trimmed_start(text);
    if has_prefix(start, "<think>"@) {
        assert(start.subrange(0, "<think>"@.len() as int) =~= text.subrange(
            from,
            from + "<think>"@.len(),
        ));
        assert(occurs_at(text, "<think>"@, from));
    }
}

} // verus!
