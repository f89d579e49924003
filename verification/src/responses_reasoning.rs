//! The `reasoning` of a request.
//!
//! Only `effort` is implemented; the other members are refused by name. The
//! effort reaches the chat template. `none` is the only value that turns thinking
//! off; an object without an effort turns it on.

use vstd::prelude::*;

use crate::json::{Json, JsonView};
use crate::llm::Reasoning;
use crate::records::{
    optional_value,
    read_record,
    record_fields,
    some_value,
    Record,
    RecordModel,
};
use crate::responses_profile::{mapped_effort, ResponsesApi};
use crate::text::same_text;

verus! {

/// The `reasoning.effort` values.
pub const EFFORT_VALUES: [&'static str; 7] = [
    "none",
    "minimal",
    "low",
    "medium",
    "high",
    "xhigh",
    "max",
];

/// The `reasoning` object of a request.
#[derive(Debug)]
pub struct ResponseReasoning {
    pub context: Option<Json>,
    pub effort: Option<Json>,
    pub generate_summary: Option<Json>,
    pub mode: Option<Json>,
    pub summary: Option<Json>,
}

/// The meaning of a [`ResponseReasoning`].
pub struct ResponseReasoningView {
    pub context: Option<JsonView>,
    pub effort: Option<JsonView>,
    pub generate_summary: Option<JsonView>,
    pub mode: Option<JsonView>,
    pub summary: Option<JsonView>,
}

impl View for ResponseReasoning {
    type V = ResponseReasoningView;

    open spec fn view(&self) -> ResponseReasoningView {
        ResponseReasoningView {
            context: self.context.deep_view(),
            effort: self.effort.deep_view(),
            generate_summary: self.generate_summary.deep_view(),
            mode: self.mode.deep_view(),
            summary: self.summary.deep_view(),
        }
    }
}

/// The record of a `reasoning` object. A member can be any value.
pub open spec fn reasoning_request_model() -> RecordModel {
    RecordModel {
        name: "ResponseReasoning"@,
        fields: seq!["context"@, "effort"@, "generate_summary"@, "mode"@, "summary"@],
        listed: "one of `context`, `effort`, `generate_summary`, `mode`, `summary`"@,
        required: Seq::empty(),
        closed: true,
        fault: |key: Seq<char>, value: JsonView| None,
    }
}

impl Record for ResponseReasoning {
    open spec fn model() -> RecordModel {
        reasoning_request_model()
    }

    fn name() -> (name: &'static str) {
        "ResponseReasoning"
    }

    fn fields() -> (fields: Vec<&'static str>) {
        let fields = vec!["context", "effort", "generate_summary", "mode", "summary"];
        assert(fields.deep_view() =~= reasoning_request_model().fields);
        fields
    }

    fn listed() -> (listed: &'static str) {
        "one of `context`, `effort`, `generate_summary`, `mode`, `summary`"
    }

    fn closed() -> (closed: bool) {
        true
    }

    fn required() -> (required: Vec<&'static str>) {
        let required: Vec<&'static str> = Vec::new();
        assert(required.deep_view() =~= reasoning_request_model().required);
        required
    }

    fn fault(key: &str, value: &Json) -> (fault: Option<String>) {
        None
    }
}

/// The `reasoning` object that a value is read as. A `null` member is a missing
/// one.
pub open spec fn read_reasoning(value: JsonView) -> Result<ResponseReasoningView, Seq<char>> {
    match record_fields(reasoning_request_model(), value) {
        Ok(fields) => Ok(
            ResponseReasoningView {
                context: some_value(fields, "context"@),
                effort: some_value(fields, "effort"@),
                generate_summary: some_value(fields, "generate_summary"@),
                mode: some_value(fields, "mode"@),
                summary: some_value(fields, "summary"@),
            },
        ),
        Err(fault) => Err(fault),
    }
}

/// Reads a `reasoning` object.
pub fn decode_reasoning(value: &Json) -> (read: Result<ResponseReasoning, String>)
    ensures
        match read {
            Ok(reasoning) => read_reasoning(value@) == Ok::<ResponseReasoningView, Seq<char>>(
                reasoning@,
            ),
            Err(fault) => read_reasoning(value@) == Err::<ResponseReasoningView, Seq<char>>(fault@),
        },
{
    match read_record::<ResponseReasoning>(value) {
        Ok(fields) => Ok(
            ResponseReasoning {
                context: optional_value(&fields, "context"),
                effort: optional_value(&fields, "effort"),
                generate_summary: optional_value(&fields, "generate_summary"),
                mode: optional_value(&fields, "mode"),
                summary: optional_value(&fields, "summary"),
            },
        ),
        Err(fault) => Err(fault),
    }
}

/// What `reasoning` comes to for one request.
#[derive(Clone, Debug, Eq, PartialEq)]
pub struct ReasoningEffect {
    /// The `enable_thinking` variable of the template.
    pub thinking: bool,
    /// The `reasoning_effort` variable of the template.
    pub effort: Option<String>,
}

/// The meaning of a [`ReasoningEffect`].
pub struct ReasoningEffectView {
    pub thinking: bool,
    pub effort: Option<Seq<char>>,
}

impl View for ReasoningEffect {
    type V = ReasoningEffectView;

    open spec fn view(&self) -> ReasoningEffectView {
        ReasoningEffectView { thinking: self.thinking, effort: self.effort.deep_view() }
    }
}

impl Default for ReasoningEffect {
    fn default() -> (effect: ReasoningEffect)
        ensures
            effect@ == (ReasoningEffectView { thinking: false, effort: None }),
    {
        ReasoningEffect { thinking: false, effort: None }
    }
}

impl ReasoningEffect {
    /// Borrows the effect as what the generation takes.
    pub fn as_reasoning(&self) -> (reasoning: Reasoning<'_>)
        ensures
            reasoning.thinking == self.thinking,
            reasoning.effort.deep_view() == self.effort.deep_view(),
    {
        let effort = match &self.effort {
            Some(effort) => Some(effort.as_str()),
            None => None,
        };
        Reasoning { thinking: self.thinking, effort }
    }
}

/// An accepted `reasoning.effort` value.
pub open spec fn is_effort(effort: Seq<char>) -> bool {
    ||| effort == "none"@
    ||| effort == "minimal"@
    ||| effort == "low"@
    ||| effort == "medium"@
    ||| effort == "high"@
    ||| effort == "xhigh"@
    ||| effort == "max"@
}

/// The effort that a value is read as, or why it is refused.
pub open spec fn read_effort(value: JsonView) -> Result<Seq<char>, Seq<char>> {
    match value {
        JsonView::Str(effort) => if is_effort(effort) {
            Ok(effort)
        } else {
            Err(
                "`reasoning.effort` `"@ + effort
                    + "` is not supported; use one of none, minimal, low, medium, high, xhigh, max"@,
            )
        },
        _ => Err("`reasoning.effort` must be a string"@),
    }
}

/// The first member that is not implemented.
pub open spec fn unimplemented_member(reasoning: ResponseReasoningView) -> Option<Seq<char>> {
    if reasoning.context is Some {
        Some("reasoning.context"@)
    } else if reasoning.generate_summary is Some {
        Some("reasoning.generate_summary"@)
    } else if reasoning.mode is Some {
        Some("reasoning.mode"@)
    } else if reasoning.summary is Some {
        Some("reasoning.summary"@)
    } else {
        None
    }
}

/// What `reasoning` comes to, or why it is refused. Without the object nothing is
/// asked for; `none` turns thinking off; the profile maps the effort.
pub open spec fn reasoning_effect(
    reasoning: Option<ResponseReasoningView>,
    profile: ResponsesApi,
) -> Result<ReasoningEffectView, Seq<char>> {
    match reasoning {
        None => Ok(ReasoningEffectView { thinking: false, effort: None }),
        Some(reasoning) => match unimplemented_member(reasoning) {
            Some(member) => Err("`"@ + member + "` is not implemented on this route"@),
            None => match reasoning.effort {
                None => Ok(ReasoningEffectView { thinking: true, effort: None }),
                Some(value) => match read_effort(value) {
                    Ok(effort) => Ok(
                        ReasoningEffectView {
                            thinking: effort != "none"@,
                            effort: Some(mapped_effort(profile, effort)),
                        },
                    ),
                    Err(message) => Err(message),
                },
            },
        },
    }
}

fn reject_unimplemented(reasoning: &ResponseReasoning) -> (checked: Result<(), String>)
    ensures
        match checked {
            Ok(_) => unimplemented_member(reasoning@) is None,
            Err(message) => unimplemented_member(reasoning@) is Some && message@ == "`"@
                + unimplemented_member(reasoning@)->0 + "` is not implemented on this route"@,
        },
{
    let member = if reasoning.context.is_some() {
        "reasoning.context"
    } else if reasoning.generate_summary.is_some() {
        "reasoning.generate_summary"
    } else if reasoning.mode.is_some() {
        "reasoning.mode"
    } else if reasoning.summary.is_some() {
        "reasoning.summary"
    } else {
        return Ok(());
    };
    Err("`".to_owned().concat(member).concat("` is not implemented on this route"))
}

fn validate_effort(value: &Json) -> (read: Result<String, String>)
    ensures
        match read {
            Ok(effort) => read_effort(value@) == Ok::<Seq<char>, Seq<char>>(effort@),
            Err(message) => read_effort(value@) == Err::<Seq<char>, Seq<char>>(message@),
        },
{
    match value {
        Json::Str(effort) => {
            let text = effort.as_str();
            if same_text(text, "none") || same_text(text, "minimal") || same_text(text, "low")
                || same_text(text, "medium") || same_text(text, "high") || same_text(text, "xhigh")
                || same_text(text, "max") {
                Ok(effort.clone())
            } else {
                Err(
                    "`reasoning.effort` `".to_owned().concat(text).concat(
                        "` is not supported; use one of none, minimal, low, medium, high, xhigh, max",
                    ),
                )
            }
        },
        _ => Err("`reasoning.effort` must be a string".to_owned()),
    }
}

/// The view of an optional `reasoning` object.
pub open spec fn option_reasoning(reasoning: Option<&ResponseReasoning>) -> Option<
    ResponseReasoningView,
> {
    match reasoning {
        Some(reasoning) => Some(reasoning@),
        None => None,
    }
}

/// What the `reasoning` object of a request comes to. A message names the field
/// that is refused.
pub fn derive_reasoning(
    reasoning: Option<&ResponseReasoning>,
    profile: ResponsesApi,
) -> (read: Result<ReasoningEffect, String>)
    ensures
        match read {
            Ok(effect) => reasoning_effect(option_reasoning(reasoning), profile) == Ok::<
                ReasoningEffectView,
                Seq<char>,
            >(effect@),
            Err(message) => reasoning_effect(option_reasoning(reasoning), profile) == Err::<
                ReasoningEffectView,
                Seq<char>,
            >(message@),
        },
{
    let reasoning = match reasoning {
        Some(reasoning) => reasoning,
        None => {
            return Ok(ReasoningEffect::default());
        },
    };
    match reject_unimplemented(reasoning) {
        Ok(_) => {},
        Err(message) => {
            return Err(message);
        },
    }
    match &reasoning.effort {
        None => Ok(ReasoningEffect { thinking: true, effort: None }),
        Some(value) => match validate_effort(value) {
            Ok(effort) => Ok(
                ReasoningEffect {
                    thinking: !same_text(effort.as_str(), "none"),
                    effort: Some(profile.map_effort(effort.as_str())),
                },
            ),
            Err(message) => Err(message),
        },
    }
}

/// `none` is the only effort that turns thinking off, in every profile.
pub proof fn law_only_none_turns_thinking_off(effort: Seq<char>, profile: ResponsesApi)
    requires
        is_effort(effort),
    ensures
        ({
            let reasoning = ResponseReasoningView {
                context: None,
                effort: Some(JsonView::Str(effort)),
                generate_summary: None,
                mode: None,
                summary: None,
            };
            &&& reasoning_effect(Some(reasoning), profile) is Ok
            &&& reasoning_effect(Some(reasoning), profile)->Ok_0.thinking == (effort != "none"@)
        }),
{
}

} // verus!
