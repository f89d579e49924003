//! The compatibility profile: what holds at each point where the Responses APIs
//! in use disagree.

use vstd::prelude::*;

use crate::llm::{Generation, DEFAULT_TEMPERATURE, DEFAULT_TOP_P};
use crate::text::same_text;

verus! {

/// The compatibility profile of the service.
#[derive(Clone, Copy, Debug, PartialEq, Eq, Structural)]
pub enum ResponsesApi {
    Openai,
    Deepseek,
    OpenResponses,
}

/// What becomes of the reasoning trace of a generation.
#[derive(Clone, Copy, Debug, PartialEq, Eq, Structural)]
pub enum ReasoningTrace {
    /// The response carries the trace as a reasoning item.
    Verbatim,
    /// The response carries no trace.
    Omitted,
}

/// The value of `reasoning.effort` that reaches the chat template.
pub open spec fn mapped_effort(profile: ResponsesApi, value: Seq<char>) -> Seq<char> {
    if profile is Deepseek && value == "minimal"@ {
        "low"@
    } else if profile is Deepseek && (value == "medium"@ || value == "xhigh"@) {
        "high"@
    } else {
        value
    }
}

/// The greater of two doubles, by their bit patterns, where the right one is above
/// zero: the right one stands also where the left one is no number.
pub open spec fn greater_pattern(left: u64, right: u64) -> u64 {
    // Above the pattern of infinity stand those that are no number and those below
    // zero.
    if left <= 0x7FF0_0000_0000_0000 && left > right {
        left
    } else {
        right
    }
}

/// The sampler values that the profile makes of the requested ones.
pub open spec fn sampled(
    profile: ResponsesApi,
    thinking: bool,
    generation: Generation,
) -> Generation {
    if profile is Deepseek && thinking {
        Generation {
            temperature: DEFAULT_TEMPERATURE,
            top_p: greater_pattern(generation.top_p, DEFAULT_TOP_P),
            max_output_tokens: generation.max_output_tokens,
        }
    } else {
        generation
    }
}

impl ResponsesApi {
    /// True where the `text.verbosity` directive is appended; `deepseek` accepts
    /// the field without effect.
    pub fn applies_verbosity_directive(self) -> (applies: bool)
        ensures
            applies == !(self is Deepseek),
    {
        !matches!(self, ResponsesApi::Deepseek)
    }

    /// True where an unsupported request field is ignored: under `deepseek` only.
    pub fn ignores_unsupported_fields(self) -> (ignores: bool)
        ensures
            ignores == (self is Deepseek),
    {
        matches!(self, ResponsesApi::Deepseek)
    }

    /// The value that reaches the chat template for an accepted `reasoning.effort`
    /// value. Only `deepseek` maps values: `minimal` to `low`, and `medium` and
    /// `xhigh` to `high`.
    pub fn map_effort(self, value: &str) -> (effort: String)
        ensures
            effort@ == mapped_effort(self, value@),
    {
        if matches!(self, ResponsesApi::Deepseek) {
            if same_text(value, "minimal") {
                return "low".to_owned();
            }
            if same_text(value, "medium") || same_text(value, "xhigh") {
                return "high".to_owned();
            }
        }
        value.to_owned()
    }

    /// What becomes of a reasoning trace where the operator does not say: no
    /// profile exposes it.
    pub fn reasoning_trace(self) -> (trace: ReasoningTrace)
        ensures
            trace is Omitted,
    {
        ReasoningTrace::Omitted
    }

    /// The type of the content part that carries a reasoning trace.
    pub fn reasoning_content_type(self) -> (part_type: &'static str)
        ensures
            part_type@ == "reasoning_text"@,
    {
        "reasoning_text"
    }

    /// The sampler values of a request. Under `deepseek` and thinking mode
    /// `temperature` has no effect and `top_p` is at least its default; otherwise
    /// the requested values hold.
    pub fn sampling(self, thinking: bool, generation: Generation) -> (values: Generation)
        ensures
            values == sampled(self, thinking, generation),
    {
        if matches!(self, ResponsesApi::Deepseek) && thinking {
            let top_p: u64 = if generation.top_p <= 0x7FF0_0000_0000_0000 && generation.top_p
                > DEFAULT_TOP_P {
                generation.top_p
            } else {
                DEFAULT_TOP_P
            };
            return Generation {
                temperature: DEFAULT_TEMPERATURE,
                top_p,
                max_output_tokens: generation.max_output_tokens,
            };
        }
        generation
    }
}

/// Outside `deepseek` every requested value holds as it is: efforts and sampler
/// values are not mapped.
pub proof fn law_only_deepseek_maps(
    profile: ResponsesApi,
    value: Seq<char>,
    thinking: bool,
    generation: Generation,
)
    requires
        !(profile is Deepseek),
    ensures
        mapped_effort(profile, value) == value,
        sampled(profile, thinking, generation) == generation,
{
}

/// Mapping an effort twice is mapping it once.
pub proof fn law_effort_mapping_is_stable(profile: ResponsesApi, value: Seq<char>)
    ensures
        mapped_effort(profile, mapped_effort(profile, value)) == mapped_effort(profile, value),
{
    reveal_strlit("low");
    reveal_strlit("high");
    reveal_strlit("minimal");
    reveal_strlit("medium");
    reveal_strlit("xhigh");
    assert("low"@.len() == 3 && "high"@.len() == 4 && "minimal"@.len() == 7 && "medium"@.len() == 6
        && "xhigh"@.len() == 5);
}

} // verus!
