//! One generation: its controls, its limits and its token counts.

use vstd::prelude::*;

use crate::json::{Json, JsonView};
use crate::json_text::{json_text, json_to_string};
use crate::text::{
    decimal,
    decimal_text,
    parse_i32,
    read_i32,
    same_text,
    signed_decimal,
    signed_text,
    trim,
    trimmed,
};

verus! {

/// The failures of a generation that a caller tells apart.
#[derive(Debug)]
pub enum LLMError {
    /// Another generation is running.
    Busy,
    /// The generation was cancelled.
    Cancelled,
    /// The requested output needs more context than the model has. The message
    /// says so.
    OutputTokensExceedContext(String),
}

/// The meaning of an [`LLMError`].
pub enum LLMErrorView {
    Busy,
    Cancelled,
    OutputTokensExceedContext(Seq<char>),
}

impl View for LLMError {
    type V = LLMErrorView;

    open spec fn view(&self) -> LLMErrorView {
        match self {
            LLMError::Busy => LLMErrorView::Busy,
            LLMError::Cancelled => LLMErrorView::Cancelled,
            LLMError::OutputTokensExceedContext(message) => LLMErrorView::OutputTokensExceedContext(
                message@,
            ),
        }
    }
}

impl LLMErrorView {
    /// The wording of a failure.
    pub open spec fn message(self) -> Seq<char> {
        match self {
            LLMErrorView::Busy => "Server busy, please try again later"@,
            LLMErrorView::Cancelled => "Generation was cancelled"@,
            LLMErrorView::OutputTokensExceedContext(message) => message,
        }
    }
}

impl LLMError {
    /// The wording of the failure.
    pub fn message(&self) -> (message: String)
        ensures
            message@ == self@.message(),
    {
        match self {
            LLMError::Busy => "Server busy, please try again later".to_owned(),
            LLMError::Cancelled => "Generation was cancelled".to_owned(),
            LLMError::OutputTokensExceedContext(message) => message.clone(),
        }
    }
}

/// A failed generation: its cause where it is one that a caller tells apart, and
/// the whole message.
#[derive(Debug)]
pub struct GenerationFailure {
    pub cause: Option<LLMError>,
    pub message: String,
}

/// The meaning of a [`GenerationFailure`].
pub struct GenerationFailureView {
    pub cause: Option<LLMErrorView>,
    pub message: Seq<char>,
}

impl View for GenerationFailure {
    type V = GenerationFailureView;

    open spec fn view(&self) -> GenerationFailureView {
        GenerationFailureView {
            cause: match self.cause {
                Some(cause) => Some(cause@),
                None => None,
            },
            message: self.message@,
        }
    }
}

/// The default `temperature`, zero, by its bit pattern as a double.
pub const DEFAULT_TEMPERATURE: u64 = 0;

/// The default `top_p`, 0.95 in single precision, by its bit pattern as a double.
pub const DEFAULT_TOP_P: u64 = 0x3FEE_6666_6000_0000;

/// The generation controls that reach the sampler and the context sizing. The
/// sampler values are doubles, each by its bit pattern.
#[derive(Clone, Copy, Debug, PartialEq, Eq, Structural)]
pub struct Generation {
    pub temperature: u64,
    pub top_p: u64,
    pub max_output_tokens: Option<u32>,
}

impl Default for Generation {
    fn default() -> (generation: Generation)
        ensures
            generation == (Generation {
                temperature: DEFAULT_TEMPERATURE,
                top_p: DEFAULT_TOP_P,
                max_output_tokens: None,
            }),
    {
        Generation {
            temperature: DEFAULT_TEMPERATURE,
            top_p: DEFAULT_TOP_P,
            max_output_tokens: None,
        }
    }
}

/// What the chat template gets to know about reasoning.
#[derive(Clone, Copy, Debug, Default, PartialEq, Eq)]
pub struct Reasoning<'a> {
    /// The `enable_thinking` variable of the template.
    pub thinking: bool,
    /// The `reasoning_effort` variable of the template.
    pub effort: Option<&'a str>,
}

/// The exact token counts of one generation.
///
/// `input_tokens` counts the prompt tokens, the beginning-of-sequence token
/// among them. `output_tokens` counts the generated tokens without the
/// end-of-generation token. `reasoning_tokens` counts the generated tokens that
/// the cleanup of the reasoning trace removed.
#[derive(Debug, Clone, Copy, PartialEq, Eq, Structural)]
pub struct TokenUsage {
    pub input_tokens: u32,
    pub output_tokens: u32,
    pub reasoning_tokens: u32,
}

impl Default for TokenUsage {
    fn default() -> (usage: TokenUsage)
        ensures
            usage == (TokenUsage { input_tokens: 0, output_tokens: 0, reasoning_tokens: 0 }),
    {
        TokenUsage { input_tokens: 0, output_tokens: 0, reasoning_tokens: 0 }
    }
}

impl TokenUsage {
    /// The sum of the two counts is a token count.
    pub open spec fn fits(&self) -> bool {
        self.input_tokens + self.output_tokens <= u32::MAX
    }

    /// The exact sum of the two counts.
    pub fn total_tokens(&self) -> (total: u32)
        requires
            self.fits(),
        ensures
            total == self.input_tokens + self.output_tokens,
    {
        self.input_tokens + self.output_tokens
    }

    /// Counts one generated token. The end-of-generation token is never counted.
    pub fn record_output(&mut self, is_eog: bool)
        requires
            is_eog || old(self).output_tokens < u32::MAX,
        ensures
            final(self).output_tokens == old(self).output_tokens + (if is_eog {
                0int
            } else {
                1int
            }),
            final(self).input_tokens == old(self).input_tokens,
            final(self).reasoning_tokens == old(self).reasoning_tokens,
    {
        if !is_eog {
            self.output_tokens = self.output_tokens + 1;
        }
    }
}

/// A value, held to the range of `i32`.
pub open spec fn saturated(value: int) -> i32 {
    if value > i32::MAX {
        i32::MAX
    } else if value < i32::MIN {
        i32::MIN
    } else {
        value as i32
    }
}

fn saturate(value: i64) -> (held: i32)
    ensures
        held == saturated(value as int),
{
    if value > i32::MAX as i64 {
        i32::MAX
    } else if value < i32::MIN as i64 {
        i32::MIN
    } else {
        value as i32
    }
}

/// The first position that is not generated: behind the requested output, or at
/// three times the prompt.
pub open spec fn position_budget(prompt_tokens: i32, max_output_tokens: Option<u32>) -> i32 {
    match max_output_tokens {
        Some(max) => saturated(prompt_tokens + saturated(max as int)),
        None => saturated(prompt_tokens * 3),
    }
}

fn budget(prompt_tokens: i32, max_output_tokens: Option<u32>) -> (positions: i32)
    ensures
        positions == position_budget(prompt_tokens, max_output_tokens),
{
    match max_output_tokens {
        Some(max) => saturate(prompt_tokens as i64 + saturate(max as i64) as i64),
        None => saturate(prompt_tokens as i64 * 3),
    }
}

/// The last position that may be generated. With `max_output_tokens` it leaves
/// exactly so many positions behind the prompt.
pub open spec fn last_position(prompt_tokens: i32, max_output_tokens: Option<u32>) -> i32 {
    match max_output_tokens {
        Some(_) => saturated(position_budget(prompt_tokens, max_output_tokens) - 1),
        None => position_budget(prompt_tokens, max_output_tokens),
    }
}

/// The last position that the decoding may generate.
pub fn output_ceiling(prompt_tokens: i32, max_output_tokens: Option<u32>) -> (ceiling: i32)
    ensures
        ceiling == last_position(prompt_tokens, max_output_tokens),
{
    let positions = budget(prompt_tokens, max_output_tokens);
    match max_output_tokens {
        Some(_) => saturate(positions as i64 - 1),
        None => positions,
    }
}

/// The context positions that a generation needs: its budget and the margin.
pub open spec fn positions_needed(
    prompt_tokens: i32,
    max_output_tokens: Option<u32>,
    margin: i32,
) -> i32 {
    saturated(position_budget(prompt_tokens, max_output_tokens) + margin)
}

/// The context positions that a generation needs.
pub fn context_positions(
    prompt_tokens: i32,
    max_output_tokens: Option<u32>,
    margin: i32,
) -> (positions: i32)
    ensures
        positions == positions_needed(prompt_tokens, max_output_tokens, margin),
{
    saturate(budget(prompt_tokens, max_output_tokens) as i64 + margin as i64)
}

/// Why a requested output is refused: it needs more context than the model was
/// trained with. A request without a limit is never refused.
pub open spec fn context_refusal(
    prompt_tokens: i32,
    max_output_tokens: Option<u32>,
    margin: i32,
    n_ctx_train: u32,
) -> Option<Seq<char>> {
    match max_output_tokens {
        None => None,
        Some(max) => {
            let needed = positions_needed(prompt_tokens, max_output_tokens, margin);
            if needed > n_ctx_train {
                Some(
                    "`max_output_tokens` "@ + decimal(max as nat) + " needs "@ + signed_decimal(
                        needed as int,
                    ) + " context positions (prompt "@ + signed_decimal(prompt_tokens as int)
                        + " plus margin "@ + signed_decimal(margin as int)
                        + "), but the model's training context is "@ + decimal(n_ctx_train as nat),
                )
            } else {
                None
            }
        },
    }
}

/// The refusal of an output that does not fit the training context.
pub fn context_rejection(
    prompt_tokens: i32,
    max_output_tokens: Option<u32>,
    margin: i32,
    n_ctx_train: u32,
) -> (message: Option<String>)
    ensures
        message.deep_view() == context_refusal(
            prompt_tokens,
            max_output_tokens,
            margin,
            n_ctx_train,
        ),
{
    let max: u32 = match max_output_tokens {
        Some(max) => max,
        None => {
            return None;
        },
    };
    let needed = context_positions(prompt_tokens, max_output_tokens, margin);
    if needed as i64 > n_ctx_train as i64 {
        return Some(
            "`max_output_tokens` ".to_owned().concat(decimal_text(max as u64).as_str()).concat(
                " needs ",
            ).concat(signed_text(needed as i64).as_str()).concat(
                " context positions (prompt ",
            ).concat(signed_text(prompt_tokens as i64).as_str()).concat(" plus margin ").concat(
                signed_text(margin as i64).as_str(),
            ).concat("), but the model's training context is ").concat(
                decimal_text(n_ctx_train as u64).as_str(),
            ),
        );
    }
    None
}

/// The variables of the chat template for the effort, as JSON text.
pub fn reasoning_kwargs(reasoning: &Reasoning<'_>) -> (kwargs: Vec<(&'static str, String)>)
    ensures
        match reasoning.effort {
            Some(effort) => kwargs@.len() == 1 && kwargs@[0].0@ == "reasoning_effort"@
                && kwargs@[0].1@ == json_text(JsonView::Str(effort@)),
            None => kwargs@.len() == 0,
        },
{
    let mut kwargs: Vec<(&'static str, String)> = Vec::new();
    if let Some(effort) = reasoning.effort {
        kwargs.push(("reasoning_effort", json_to_string(&Json::text(effort))));
    }
    kwargs
}

/// The chat message of a prompt.
pub fn chat_message(system: &str, user: &str) -> (message: String)
    ensures
        message@ == system@ + "\n\n"@ + user@,
{
    system.to_owned().concat("\n\n").concat(user)
}

/// A count of tokens as the signed number that positions are counted in.
pub open spec fn signed_count(count: u32) -> i32 {
    if count <= i32::MAX {
        count as i32
    } else {
        (count - 0x1_0000_0000) as i32
    }
}

/// The sizes of one generation.
#[derive(Clone, Copy, Debug, PartialEq, Eq, Structural)]
pub struct PromptPlan {
    /// The tokens of the prompt, as they are counted.
    pub input_tokens: u32,
    /// The last position that may be generated.
    pub ceiling: i32,
    /// The positions of the context.
    pub context_size: i32,
}

/// The margin behind the generated positions: speculative decoding checks its
/// drafts there.
pub open spec fn margin_of(mtp_n_max: Option<i32>) -> int {
    match mtp_n_max {
        Some(n_max) => n_max + 1,
        None => 0,
    }
}

/// The sizes of a generation for a prompt of so many tokens.
pub open spec fn sizes_of(
    token_count: u32,
    max_output_tokens: Option<u32>,
    mtp_n_max: Option<i32>,
) -> PromptPlan {
    let prompt = signed_count(token_count);
    PromptPlan {
        input_tokens: token_count,
        ceiling: last_position(prompt, max_output_tokens),
        context_size: positions_needed(prompt, max_output_tokens, margin_of(mtp_n_max) as i32),
    }
}

/// A generation for a prompt of so many tokens is planned and not refused.
pub open spec fn is_planned(
    token_count: nat,
    max_output_tokens: Option<u32>,
    mtp_n_max: Option<i32>,
    n_ctx_train: u32,
) -> bool {
    token_count <= u32::MAX && context_refusal(
        signed_count(token_count as u32),
        max_output_tokens,
        margin_of(mtp_n_max) as i32,
        n_ctx_train,
    ) is None
}

/// The sizes of a generation for a prompt of so many tokens, or why it is refused.
/// `mtp_n_max` is the number of draft tokens where speculative decoding is on.
pub fn plan_prompt(
    token_count: usize,
    max_output_tokens: Option<u32>,
    mtp_n_max: Option<i32>,
    n_ctx_train: u32,
) -> (plan: Result<PromptPlan, GenerationFailure>)
    requires
        mtp_n_max matches Some(n_max) ==> n_max < i32::MAX,
    ensures
        ({
            let margin = margin_of(mtp_n_max) as i32;
            let prompt = signed_count(token_count as u32);
            if token_count > u32::MAX {
                &&& plan matches Err(failed)
                &&& failed@.cause is None
                &&& failed@.message == "prompt token count does not fit in u32"@
            } else if context_refusal(prompt, max_output_tokens, margin, n_ctx_train) is Some {
                let message = context_refusal(prompt, max_output_tokens, margin, n_ctx_train)->0;
                &&& plan matches Err(failed)
                &&& failed@.cause == Some(LLMErrorView::OutputTokensExceedContext(message))
                &&& failed@.message == message
            } else {
                &&& plan matches Ok(sizes)
                &&& sizes.input_tokens == token_count
                &&& sizes.ceiling == last_position(prompt, max_output_tokens)
                &&& sizes.context_size == positions_needed(prompt, max_output_tokens, margin)
            }
        }),
        plan matches Ok(sizes) ==> sizes == sizes_of(
            token_count as u32,
            max_output_tokens,
            mtp_n_max,
        ),
        (plan is Ok) == is_planned(token_count as nat, max_output_tokens, mtp_n_max, n_ctx_train),
{
    if token_count as u64 > u32::MAX as u64 {
        return Err(
            GenerationFailure {
                cause: None,
                message: "prompt token count does not fit in u32".to_owned(),
            },
        );
    }
    let input_tokens: u32 = token_count as u32;
    let prompt_tokens: i32 = if input_tokens <= i32::MAX as u32 {
        input_tokens as i32
    } else {
        (input_tokens as i64 - 0x1_0000_0000) as i32
    };
    let margin: i32 = match mtp_n_max {
        Some(n_max) => n_max + 1,
        None => 0,
    };
    if let Some(message) = context_rejection(
        prompt_tokens,
        max_output_tokens,
        margin,
        n_ctx_train,
    ) {
        return Err(
            GenerationFailure {
                cause: Some(LLMError::OutputTokensExceedContext(message.clone())),
                message,
            },
        );
    }
    Ok(
        PromptPlan {
            input_tokens,
            ceiling: output_ceiling(prompt_tokens, max_output_tokens),
            context_size: context_positions(prompt_tokens, max_output_tokens, margin),
        },
    )
}

/// What to do about the lock that one generation holds at a time.
#[derive(Clone, Copy, Debug, PartialEq, Eq, Structural)]
pub enum LockDecision {
    Held,
    Cancelled,
    Busy,
    TryAgain,
}

/// Decides about the lock: a cancelled generation gives up, one that got the lock
/// goes on, and one that did not tries again until its time is over.
pub fn lock_prompt(cancelled: bool, acquired: bool, out_of_time: bool) -> (decision: LockDecision)
    ensures
        decision == if cancelled {
            LockDecision::Cancelled
        } else if acquired {
            LockDecision::Held
        } else if out_of_time {
            LockDecision::Busy
        } else {
            LockDecision::TryAgain
        },
{
    if cancelled {
        LockDecision::Cancelled
    } else if acquired {
        LockDecision::Held
    } else if out_of_time {
        LockDecision::Busy
    } else {
        LockDecision::TryAgain
    }
}

/// The tokens of a reasoning trace among the generated ones. `trace_tokens` is
/// what the tokenizer counts; no more than were generated are counted.
pub fn count_reasoning_tokens(trace: &str, trace_tokens: usize, output_tokens: u32) -> (count: u32)
    ensures
        count == if trace@.len() == 0 {
            0
        } else if trace_tokens < output_tokens {
            trace_tokens as u32
        } else {
            output_tokens
        },
        count <= output_tokens,
{
    if trace.is_empty() {
        return 0;
    }
    if (trace_tokens as u64) < output_tokens as u64 {
        trace_tokens as u32
    } else {
        output_tokens
    }
}

/// The physical batch size: on a card with less than 6 GiB it is small, so that
/// the cache and the compute buffers fit. `total_mib` is the memory of the card,
/// where it is known.
pub fn pick_n_ubatch(use_gpu: bool, total_mib: Option<u64>, default_size: u32) -> (size: u32)
    ensures
        size == if use_gpu && total_mib is Some && total_mib->0 < 6144 {
            128
        } else {
            default_size
        },
{
    if use_gpu {
        if let Some(total) = total_mib {
            if total < 6 * 1024 {
                return 128;
            }
        }
    }
    default_size
}

/// How a model drafts for speculative decoding.
#[derive(Clone, Copy, Debug, Eq, PartialEq, Structural)]
pub enum MtpMode {
    /// Not at all: one token at a time.
    Off,
    /// With a separate draft model.
    DraftFile,
    /// With its own head.
    SelfMtp,
}

/// A draft file wins; otherwise a model that has a head drafts for itself.
pub open spec fn mode_of(has_draft_file: bool, nextn_layers: i32) -> MtpMode {
    if has_draft_file {
        MtpMode::DraftFile
    } else if nextn_layers > 0 {
        MtpMode::SelfMtp
    } else {
        MtpMode::Off
    }
}

/// How the model drafts.
pub fn mtp_mode(has_draft_file: bool, nextn_layers: i32) -> (mode: MtpMode)
    ensures
        mode == mode_of(has_draft_file, nextn_layers),
{
    if has_draft_file {
        MtpMode::DraftFile
    } else if nextn_layers > 0 {
        MtpMode::SelfMtp
    } else {
        MtpMode::Off
    }
}

/// The metadata key of the number of draft layers.
pub fn nextn_key(architecture: &str) -> (key: String)
    ensures
        key@ == trimmed(architecture@) + ".nextn_predict_layers"@,
{
    trim(architecture).concat(".nextn_predict_layers")
}

/// The number of draft layers of a metadata value; zero where there is none or it
/// is no number.
pub fn parse_nextn_layers(value: Option<&str>) -> (layers: i32)
    ensures
        layers == match value {
            Some(text) => match read_i32(trimmed(text@)) {
                Some(n) => n,
                None => 0,
            },
            None => 0,
        },
{
    match value {
        Some(text) => match parse_i32(trim(text).as_str()) {
            Some(n) => n,
            None => 0,
        },
        None => 0,
    }
}

/// Checks the number of draft tokens: 1 to 16.
pub fn validate_mtp_n_max(value: i32) -> (checked: Result<(), String>)
    ensures
        match checked {
            Ok(_) => 1 <= value <= 16,
            Err(message) => !(1 <= value <= 16) && message@
                == "MTP draft token count must be between 1 and 16"@,
        },
{
    if 1 <= value && value <= 16 {
        Ok(())
    } else {
        Err("MTP draft token count must be between 1 and 16".to_owned())
    }
}

/// Whether the model's own draft head is loaded: it is where no draft file is
/// given. A draft file asks for a valid number of draft tokens.
pub fn plan_load(has_draft_file: bool, mtp_n_max: i32) -> (load_mtp: Result<bool, String>)
    ensures
        match load_mtp {
            Ok(load) => load == !has_draft_file && (has_draft_file ==> 1 <= mtp_n_max <= 16),
            Err(message) => has_draft_file && !(1 <= mtp_n_max <= 16) && message@
                == "MTP draft token count must be between 1 and 16"@,
        },
{
    if has_draft_file {
        match validate_mtp_n_max(mtp_n_max) {
            Ok(_) => {},
            Err(message) => {
                return Err(message);
            },
        }
    }
    Ok(!has_draft_file)
}

/// Whether the model drafts for itself. That asks for a valid number of draft
/// tokens.
pub fn select_self_mtp(has_draft_file: bool, nextn_layers: i32, mtp_n_max: i32) -> (selected:
    Result<bool, String>)
    ensures
        match selected {
            Ok(on) => on == (mode_of(has_draft_file, nextn_layers) is SelfMtp) && (on ==> 1
                <= mtp_n_max <= 16),
            Err(message) => mode_of(has_draft_file, nextn_layers) is SelfMtp && !(1 <= mtp_n_max
                <= 16) && message@ == "MTP draft token count must be between 1 and 16"@,
        },
{
    match mtp_mode(has_draft_file, nextn_layers) {
        MtpMode::SelfMtp => match validate_mtp_n_max(mtp_n_max) {
            Ok(_) => Ok(true),
            Err(message) => Err(message),
        },
        _ => Ok(false),
    }
}

/// What two models have to share to work together. The type and the token are
/// given by their names.
#[derive(Debug)]
pub struct ModelShape {
    pub n_vocab: i32,
    pub vocab_type: String,
    pub bos: String,
    pub n_embd_out: i32,
}

/// The meaning of a [`ModelShape`].
pub struct ShapeView {
    pub n_vocab: i32,
    pub vocab_type: Seq<char>,
    pub bos: Seq<char>,
    pub n_embd_out: i32,
}

impl View for ModelShape {
    type V = ShapeView;

    open spec fn view(&self) -> ShapeView {
        ShapeView {
            n_vocab: self.n_vocab,
            vocab_type: self.vocab_type@,
            bos: self.bos@,
            n_embd_out: self.n_embd_out,
        }
    }
}

/// The wording for two models that do not fit.
pub open spec fn shape_mismatch(target: ShapeView, draft: ShapeView) -> Seq<char> {
    "MTP model is not compatible with the target model: vocab="@ + signed_decimal(
        target.n_vocab as int,
    ) + "/"@ + signed_decimal(draft.n_vocab as int) + ", type="@ + target.vocab_type + "/"@
        + draft.vocab_type + ", BOS="@ + target.bos + "/"@ + draft.bos + ", embedding="@
        + signed_decimal(target.n_embd_out as int) + "/"@ + signed_decimal(
        draft.n_embd_out as int,
    )
}

/// Checks that a draft model fits the target model.
pub fn validate_mtp_pair(target: &ModelShape, draft: &ModelShape) -> (checked: Result<(), String>)
    ensures
        match checked {
            Ok(_) => target@ == draft@,
            Err(message) => target@ != draft@ && message@ == shape_mismatch(target@, draft@),
        },
{
    if target.n_vocab == draft.n_vocab && same_text(
        target.vocab_type.as_str(),
        draft.vocab_type.as_str(),
    ) && same_text(target.bos.as_str(), draft.bos.as_str()) && target.n_embd_out
        == draft.n_embd_out {
        return Ok(());
    }
    Err(
        "MTP model is not compatible with the target model: vocab=".to_owned().concat(
            signed_text(target.n_vocab as i64).as_str(),
        ).concat("/").concat(signed_text(draft.n_vocab as i64).as_str()).concat(", type=").concat(
            target.vocab_type.as_str(),
        ).concat("/").concat(draft.vocab_type.as_str()).concat(", BOS=").concat(
            target.bos.as_str(),
        ).concat("/").concat(draft.bos.as_str()).concat(", embedding=").concat(
            signed_text(target.n_embd_out as i64).as_str(),
        ).concat("/").concat(signed_text(draft.n_embd_out as i64).as_str()),
    )
}

/// The layers to try next after a model could not be loaded: first a number that
/// covers most models, then half.
pub open spec fn fewer_layers(layers: u32) -> u32 {
    if layers >= 9999 {
        64
    } else {
        layers / 2
    }
}

/// The search for the number of layers that the card can hold.
#[derive(Clone, Copy, Debug, PartialEq, Eq, Structural)]
pub struct LayerSearch {
    /// The layers to put on the card in the next attempt.
    pub layers: u32,
}

/// What came of an attempt.
#[derive(Clone, Copy, Debug, PartialEq, Eq, Structural)]
pub enum Attempt {
    /// The model could not be loaded.
    LoadFailed,
    /// It was loaded, and a first token could not be decoded. It has so many
    /// layers.
    ProbeFailed(u32),
    /// It works. It has so many layers.
    Works(u32),
}

/// What comes next.
#[derive(Debug)]
pub enum SearchStep {
    /// Another attempt.
    Try(LayerSearch),
    /// The model works. So many layers are on the card where not all are.
    Found(Option<u32>),
    /// It does not work at all.
    GiveUp(String),
}

/// The layers that are on the card, of a model with so many.
pub open spec fn held_layers(layers: u32, actual: u32) -> u32 {
    if layers < actual {
        layers
    } else {
        actual
    }
}

/// The layers to try next after a model could not decode: a tenth fewer, and at
/// least one.
pub open spec fn probed_layers(current: u32) -> u32 {
    if current == 0 {
        0
    } else if current / 10 > 1 {
        (current - current / 10) as u32
    } else {
        (current - 1) as u32
    }
}

/// The layers of the next attempt after one with so many, where there is one.
pub open spec fn next_layers(layers: u32, attempt: Attempt) -> Option<u32> {
    let fewer = match attempt {
        Attempt::LoadFailed => fewer_layers(layers),
        Attempt::ProbeFailed(actual) => probed_layers(held_layers(layers, actual)),
        Attempt::Works(_) => 0,
    };
    if fewer == 0 {
        None
    } else {
        Some(fewer)
    }
}

impl LayerSearch {
    /// The search before its first attempt: with every layer on the card.
    pub fn new() -> (search: LayerSearch)
        ensures
            search.layers == 9999,
    {
        LayerSearch { layers: 9999 }
    }

    /// Takes what came of an attempt. Every further attempt is made with fewer
    /// layers, so the search ends.
    pub fn step(self, attempt: Attempt) -> (next: SearchStep)
        ensures
            match attempt {
                Attempt::LoadFailed => if fewer_layers(self.layers) == 0 {
                    next matches SearchStep::GiveUp(message) && message@
                        == "Unable to load model even with 0 GPU layers"@
                } else {
                    next == SearchStep::Try(LayerSearch { layers: fewer_layers(self.layers) })
                },
                Attempt::ProbeFailed(actual) => {
                    let fewer = probed_layers(held_layers(self.layers, actual));
                    if fewer == 0 {
                        next matches SearchStep::GiveUp(message) && message@
                            == "GPU inference failed even with 0 layers"@
                    } else {
                        next == SearchStep::Try(LayerSearch { layers: fewer })
                    }
                },
                Attempt::Works(actual) => next == SearchStep::Found(
                    if self.layers < actual {
                        Some(self.layers)
                    } else {
                        None
                    },
                ),
            },
            next matches SearchStep::Try(search) ==> 0 < search.layers < self.layers,
            next_layers(self.layers, attempt) == match next {
                SearchStep::Try(search) => Some(search.layers),
                _ => None,
            },
    {
        match attempt {
            Attempt::LoadFailed => {
                let fewer: u32 = if self.layers >= 9999 {
                    64
                } else {
                    self.layers / 2
                };
                if fewer == 0 {
                    return SearchStep::GiveUp(
                        "Unable to load model even with 0 GPU layers".to_owned(),
                    );
                }
                SearchStep::Try(LayerSearch { layers: fewer })
            },
            Attempt::ProbeFailed(actual) => {
                let current: u32 = if self.layers < actual {
                    self.layers
                } else {
                    actual
                };
                let fewer: u32 = if current == 0 {
                    0
                } else if current / 10 > 1 {
                    current - current / 10
                } else {
                    current - 1
                };
                if fewer == 0 {
                    return SearchStep::GiveUp("GPU inference failed even with 0 layers".to_owned());
                }
                SearchStep::Try(LayerSearch { layers: fewer })
            },
            Attempt::Works(actual) => SearchStep::Found(
                if self.layers < actual {
                    Some(self.layers)
                } else {
                    None
                },
            ),
        }
    }
}

/// The layers to try next after a draft model could not be loaded, down to none on
/// the card. None when there is nothing left to try.
pub fn retry_draft_layers(use_gpu: bool, layers: u32) -> (next: Option<u32>)
    ensures
        next == if use_gpu && layers > 0 {
            Some(fewer_layers(layers))
        } else {
            None
        },
        next matches Some(fewer) ==> fewer < layers,
{
    if use_gpu && layers > 0 {
        Some(
            if layers >= 9999 {
                64
            } else {
                layers / 2
            },
        )
    } else {
        None
    }
}

/// With a requested output the positions behind the prompt up to the last one are
/// exactly as many as were requested, and all of them lie in the context.
pub proof fn law_ceiling_leaves_the_requested_output(
    prompt_tokens: i32,
    max_output_tokens: u32,
    margin: i32,
)
    requires
        0 <= prompt_tokens,
        0 <= margin,
        prompt_tokens + max_output_tokens + margin <= i32::MAX,
        max_output_tokens >= 1,
    ensures
        last_position(prompt_tokens, Some(max_output_tokens)) - prompt_tokens + 1
            == max_output_tokens,
        last_position(prompt_tokens, Some(max_output_tokens)) + margin < positions_needed(
            prompt_tokens,
            Some(max_output_tokens),
            margin,
        ),
{
}

/// A request that is not refused fits the training context, and a refused one does
/// not: the limit is never lowered silently.
pub proof fn law_refusal_is_exact(
    prompt_tokens: i32,
    max_output_tokens: u32,
    margin: i32,
    n_ctx_train: u32,
)
    ensures
        context_refusal(prompt_tokens, Some(max_output_tokens), margin, n_ctx_train) is None
            <==> positions_needed(prompt_tokens, Some(max_output_tokens), margin) <= n_ctx_train,
        context_refusal(prompt_tokens, None, margin, n_ctx_train) is None,
{
}

/// Without a limit a generation may go on to three times the prompt; with one it may
/// fill the requested positions behind the prompt. Its context holds these and the
/// margin, and where they are more than can be counted, as many as can be.
pub proof fn law_positions_follow_the_request(
    prompt_tokens: i32,
    max_output_tokens: u32,
    margin: i32,
)
    requires
        0 <= prompt_tokens,
        0 <= margin,
    ensures
        3 * prompt_tokens + margin <= i32::MAX ==> last_position(prompt_tokens, None) == 3
            * prompt_tokens && positions_needed(prompt_tokens, None, margin) == 3 * prompt_tokens
            + margin,
        prompt_tokens + max_output_tokens + margin <= i32::MAX ==> positions_needed(
            prompt_tokens,
            Some(max_output_tokens),
            margin,
        ) == prompt_tokens + max_output_tokens + margin,
        3 * prompt_tokens + margin > i32::MAX ==> positions_needed(prompt_tokens, None, margin)
            == i32::MAX,
        prompt_tokens + max_output_tokens + margin > i32::MAX ==> positions_needed(
            prompt_tokens,
            Some(max_output_tokens),
            margin,
        ) == i32::MAX,
{
}

/// The margin has room for every draft of a round and the token that is sampled behind
/// them; one token at a time needs none.
pub proof fn law_margin_holds_a_round(n_max: i32)
    ensures
        margin_of(Some(n_max)) - n_max == 1,
        margin_of(None) == 0,
{
}

/// A draft file always drafts. Without one a model drafts for itself exactly when it
/// has draft layers.
pub proof fn law_drafting_follows_the_models(has_draft_file: bool, nextn_layers: i32)
    ensures
        mode_of(has_draft_file, nextn_layers) is DraftFile <==> has_draft_file,
        mode_of(has_draft_file, nextn_layers) is SelfMtp <==> !has_draft_file && nextn_layers > 0,
        mode_of(has_draft_file, nextn_layers) is Off <==> !has_draft_file && nextn_layers <= 0,
{
}

/// The search for layers comes down in steps: after the first attempt to 64, then to
/// half of the last attempt, and after a model that could not decode to a tenth less,
/// or to one less where a tenth is not even that.
pub proof fn law_layers_come_down_in_steps(layers: u32, actual: u32)
    ensures
        layers >= 9999 ==> fewer_layers(layers) == 64,
        layers < 9999 ==> 2 * fewer_layers(layers) <= layers < 2 * fewer_layers(layers) + 2,
        layers >= 20 ==> {
            let less = layers - probed_layers(layers);
            10 * less <= layers < 10 * less + 10
        },
        0 < layers < 20 ==> layers - probed_layers(layers) == 1,
        probed_layers(0) == 0,
        held_layers(layers, actual) <= layers && held_layers(layers, actual) <= actual,
        held_layers(layers, actual) == layers || held_layers(layers, actual) == actual,
{
}

/// A count of tokens is its own position, as far as positions can be counted.
pub proof fn law_counts_are_positions(count: u32)
    ensures
        count <= i32::MAX ==> signed_count(count) == count,
{
}

/// A planned generation has room for what was asked: its context holds the prompt, the
/// requested output and the drafts, no position less and none more, and all of it lies
/// in the training context. The prompt is counted as it is.
pub proof fn law_planned_sizes(
    token_count: u32,
    max_output_tokens: u32,
    n_max: i32,
    n_ctx_train: u32,
)
    requires
        0 <= n_max < i32::MAX,
        1 <= max_output_tokens,
        token_count + max_output_tokens + n_max + 1 <= i32::MAX,
    ensures
        ({
            let alone = sizes_of(token_count, Some(max_output_tokens), None);
            let drafting = sizes_of(token_count, Some(max_output_tokens), Some(n_max));
            &&& alone.input_tokens == token_count && drafting.input_tokens == token_count
            &&& alone.ceiling == token_count + max_output_tokens - 1
            &&& drafting.ceiling == alone.ceiling
            &&& alone.context_size == token_count + max_output_tokens
            &&& drafting.context_size == alone.context_size + n_max + 1
        }),
        is_planned(token_count as nat, Some(max_output_tokens), None, n_ctx_train) == (token_count
            + max_output_tokens <= n_ctx_train),
        is_planned(token_count as nat, Some(max_output_tokens), Some(n_max), n_ctx_train) == (
        token_count + max_output_tokens + n_max + 1 <= n_ctx_train),
        is_planned(token_count as nat, None, Some(n_max), n_ctx_train),
        !is_planned(0x1_0000_0000, None, None, n_ctx_train),
{
}

/// How the search for layers goes on: a model that could not be loaded is tried with
/// half as many layers, one that could not decode with a tenth fewer of those it has,
/// until none is left; one that works ends the search.
pub proof fn law_search_goes_on_with_fewer(layers: u32, actual: u32)
    ensures
        next_layers(layers, Attempt::Works(actual)) is None,
        layers >= 9999 ==> next_layers(layers, Attempt::LoadFailed) == Some(64u32),
        1 < layers < 9999 ==> next_layers(layers, Attempt::LoadFailed) == Some(layers / 2),
        layers <= 1 ==> next_layers(layers, Attempt::LoadFailed) is None,
        ({
            let held = if layers < actual {
                layers
            } else {
                actual
            };
            &&& held <= 1 ==> next_layers(layers, Attempt::ProbeFailed(actual)) is None
            &&& 1 < held < 20 ==> next_layers(layers, Attempt::ProbeFailed(actual)) == Some(
                (held - 1) as u32,
            )
            &&& held >= 20 ==> next_layers(layers, Attempt::ProbeFailed(actual)) == Some(
                (held - held / 10) as u32,
            )
        }),
{
}

} // verus!
